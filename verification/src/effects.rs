//! Effects: writes to state fields that a primitive task makes.
use vstd::prelude::*;
use crate::conditions::{
    find_variant, first_variant, has_unit_variant, int_of, is_i32, is_option, none_name, some_name,
    unit_variant, HtnCondition,
};
use crate::model::{
    first_index, float_is_nan, lemma_first_index_bounds, lemma_first_index_names, lemma_with_value, lemma_with_value_idem,
    lookup, resolves, resolves_enum, same_type, same_type_exec, variants_view, with_value,
    with_variant, wrap_i32, wrapping_add_i32, HtnState, IntKind, RegisteredType,
    TypeRegistryModel, Val, Value, VariantInfo,
};
use crate::text::{eq_text, join, text};

verus! {

/// A write to the state. A floating-point literal is held as the bit
/// pattern of the `f32` it stands for.
#[derive(Debug, Clone, PartialEq)]
#[allow(inconsistent_fields)]
pub enum Effect {
    SetBool { field: String, value: bool, syntax: String },
    SetInt { field: String, value: i32, syntax: String },
    SetFloat { field: String, value: u32, syntax: String },
    /// Sets `field` to the value of `field_source`; both must have one type.
    SetIdentifier { field: String, field_source: String, syntax: String },
    IncrementInt { field: String, by: i32, syntax: String },
    IncrementFloat { field: String, by: u32, syntax: String },
    SetEnum { field: String, enum_type: String, enum_variant: String, syntax: String },
    SetNone { field: String, syntax: String },
}

/// The mathematical model of an [`Effect`]: the same shape, with texts as
/// character sequences.
pub enum EffV {
    SetBool { field: Seq<char>, value: bool, syntax: Seq<char> },
    SetInt { field: Seq<char>, value: i32, syntax: Seq<char> },
    SetFloat { field: Seq<char>, value: u32, syntax: Seq<char> },
    SetIdentifier { field: Seq<char>, field_source: Seq<char>, syntax: Seq<char> },
    IncrementInt { field: Seq<char>, by: i32, syntax: Seq<char> },
    IncrementFloat { field: Seq<char>, by: u32, syntax: Seq<char> },
    SetEnum { field: Seq<char>, enum_type: Seq<char>, enum_variant: Seq<char>, syntax: Seq<char> },
    SetNone { field: Seq<char>, syntax: Seq<char> },
}

impl View for Effect {
    type V = EffV;

    open spec fn view(&self) -> EffV {
        match *self {
            Effect::SetBool { field, value, syntax } => EffV::SetBool {
                field: field@,
                value,
                syntax: syntax@,
            },
            Effect::SetInt { field, value, syntax } => EffV::SetInt {
                field: field@,
                value,
                syntax: syntax@,
            },
            Effect::SetFloat { field, value, syntax } => EffV::SetFloat {
                field: field@,
                value,
                syntax: syntax@,
            },
            Effect::SetIdentifier { field, field_source, syntax } => EffV::SetIdentifier {
                field: field@,
                field_source: field_source@,
                syntax: syntax@,
            },
            Effect::IncrementInt { field, by, syntax } => EffV::IncrementInt {
                field: field@,
                by,
                syntax: syntax@,
            },
            Effect::IncrementFloat { field, by, syntax } => EffV::IncrementFloat {
                field: field@,
                by,
                syntax: syntax@,
            },
            Effect::SetEnum { field, enum_type, enum_variant, syntax } => EffV::SetEnum {
                field: field@,
                enum_type: enum_type@,
                enum_variant: enum_variant@,
                syntax: syntax@,
            },
            Effect::SetNone { field, syntax } => EffV::SetNone { field: field@, syntax: syntax@ },
        }
    }
}

/// Whether some variant is named `name`.
pub open spec fn has_variant(variants: Seq<(Seq<char>, bool)>, name: Seq<char>) -> bool {
    first_variant(variants, name) is Some
}

/// "Unknown state field `f` for N `s`".
pub open spec fn unknown_field_msg(noun: Seq<char>, field: Seq<char>, syntax: Seq<char>) -> Seq<
    char,
> {
    "Unknown state field `"@ + field + "` for "@ + noun + " `"@ + syntax + "`"@
}

/// "An N is trying to set 'f' to 's' but they are different types".
pub open spec fn different_types_msg(noun: Seq<char>, field: Seq<char>, source: Seq<char>) -> Seq<
    char,
> {
    "An "@ + noun + " is trying to set '"@ + field + "' to '"@ + source
        + "' but they are different types"@
}

/// "N field 'f' should be an enum!".
pub open spec fn not_enum_msg(noun: Seq<char>, field: Seq<char>) -> Seq<char> {
    noun + " field '"@ + field + "' should be an enum!"@
}

/// "N field 'f' is not an Option enum, for: s".
pub open spec fn not_option_msg(noun: Seq<char>, field: Seq<char>, syntax: Seq<char>) -> Seq<char> {
    noun + " field '"@ + field + "' is not an Option enum, for: "@ + syntax
}

/// "N enum variant 'v' not found, field name: 'f'".
pub open spec fn no_variant_msg(noun: Seq<char>, variant: Seq<char>, field: Seq<char>) -> Seq<char> {
    noun + " enum variant '"@ + variant + "' not found, field name: '"@ + field + "'"@
}

/// "N enum type 'T' not found in type registry".
pub open spec fn unregistered_msg(noun: Seq<char>, ty: Seq<char>) -> Seq<char> {
    noun + " enum type '"@ + ty + "' not found in type registry"@
}

/// "N enum type mismatch when setting field 'f' to T::V".
pub open spec fn enum_mismatch_msg(noun: Seq<char>, field: Seq<char>, ty: Seq<char>, variant: Seq<
    char,
>) -> Seq<char> {
    noun + " enum type mismatch when setting field '"@ + field + "' to "@ + ty + "::"@ + variant
}

/// The check of a write to `field`: the field exists.
pub open spec fn field_check(
    noun: Seq<char>,
    state: Seq<(Seq<char>, Val)>,
    field: Seq<char>,
    syntax: Seq<char>,
) -> Result<(), Seq<char>> {
    if lookup(state, field) is Some {
        Ok(())
    } else {
        Err(unknown_field_msg(noun, field, syntax))
    }
}

/// The check of a copy of `source` into `field`: both exist and have the
/// same type.
pub open spec fn copy_check(
    noun: Seq<char>,
    state: Seq<(Seq<char>, Val)>,
    field: Seq<char>,
    source: Seq<char>,
    syntax: Seq<char>,
) -> Result<(), Seq<char>> {
    match (lookup(state, field), lookup(state, source)) {
        (None, _) => Err(unknown_field_msg(noun, field, syntax)),
        (Some(_), None) => Err(unknown_field_msg(noun, source, syntax)),
        (Some(a), Some(b)) => if same_type(a, b) {
            Ok(())
        } else {
            Err(different_types_msg(noun, field, source))
        },
    }
}

/// The check of a write of `None` to `field`: the field exists and is an
/// enum with variants `None` and `Some`.
pub open spec fn none_write_check(
    noun: Seq<char>,
    state: Seq<(Seq<char>, Val)>,
    field: Seq<char>,
    syntax: Seq<char>,
) -> Result<(), Seq<char>> {
    match lookup(state, field) {
        None => Err(unknown_field_msg(noun, field, syntax)),
        Some(Val::Enum { variants, .. }) => if has_variant(variants, none_name()) && has_variant(
            variants,
            some_name(),
        ) {
            Ok(())
        } else {
            Err(not_option_msg(noun, field, syntax))
        },
        Some(_) => Err(not_enum_msg(noun, field)),
    }
}

/// The check of a write of the variant `ty::variant` to `field`: the field
/// exists, is an enum with that variant, its type is registered and is
/// named `ty`.
pub open spec fn enum_write_check(
    noun: Seq<char>,
    state: Seq<(Seq<char>, Val)>,
    types: Seq<RegisteredType>,
    field: Seq<char>,
    ty: Seq<char>,
    variant: Seq<char>,
    syntax: Seq<char>,
) -> Result<(), Seq<char>> {
    match lookup(state, field) {
        None => Err(unknown_field_msg(noun, field, syntax)),
        Some(Val::Enum { variants, type_path, type_ident, .. }) => if !has_variant(variants, variant) {
            Err(no_variant_msg(noun, variant, field))
        } else if !resolves(types, type_path) {
            Err(unregistered_msg(noun, ty))
        } else if type_ident != ty {
            Err(enum_mismatch_msg(noun, field, ty, variant))
        } else {
            Ok(())
        },
        Some(_) => Err(not_enum_msg(noun, field)),
    }
}

/// What an effect is called in messages.
pub open spec fn effect_noun(is_expected_effect: bool) -> Seq<char> {
    if is_expected_effect { "expected_effect"@ } else { "effect"@ }
}

impl Effect {
    /// The text the effect was written as.
    pub open spec fn syntax_of(self) -> String {
        match self {
            Effect::SetBool { syntax, .. } => syntax,
            Effect::SetInt { syntax, .. } => syntax,
            Effect::SetFloat { syntax, .. } => syntax,
            Effect::SetIdentifier { syntax, .. } => syntax,
            Effect::IncrementInt { syntax, .. } => syntax,
            Effect::IncrementFloat { syntax, .. } => syntax,
            Effect::SetEnum { syntax, .. } => syntax,
            Effect::SetNone { syntax, .. } => syntax,
        }
    }

    /// The text the effect was written as.
    pub fn syntax(&self) -> (r: &String)
        ensures
            *r == self.syntax_of(),
    {
        match self {
            Effect::SetBool { syntax, .. } => syntax,
            Effect::SetInt { syntax, .. } => syntax,
            Effect::SetFloat { syntax, .. } => syntax,
            Effect::SetIdentifier { syntax, .. } => syntax,
            Effect::IncrementInt { syntax, .. } => syntax,
            Effect::IncrementFloat { syntax, .. } => syntax,
            Effect::SetEnum { syntax, .. } => syntax,
            Effect::SetNone { syntax, .. } => syntax,
        }
    }

    /// Whether the effect adds to a floating-point field, which takes
    /// floating-point arithmetic that this library leaves to its caller.
    pub open spec fn needs_float_arithmetic(self) -> bool {
        self is IncrementFloat
    }

    /// Whether the effect adds to a floating-point field.
    pub fn float_arithmetic(&self) -> (r: bool)
        ensures
            r == self.needs_float_arithmetic(),
    {
        match self {
            Effect::IncrementFloat { .. } => true,
            _ => false,
        }
    }

    /// Whether applying the effect to `state` completes: the field it
    /// writes exists; a copy reads an existing field of the same type; an
    /// enum write names a data-less variant of the field's enum type (and,
    /// for a named variant, a registered enum type).
    pub open spec fn applicable(self, state: Seq<(Seq<char>, Val)>, types: Seq<RegisteredType>) -> bool {
        match self {
            Effect::SetIdentifier { field, field_source, .. } => match (
                lookup(state, field@),
                lookup(state, field_source@),
            ) {
                (Some(a), Some(b)) => same_type(a, b),
                _ => false,
            },
            Effect::SetNone { field, .. } => match lookup(state, field@) {
                Some(Val::Enum { variants, .. }) => unit_variant(variants, none_name()),
                _ => false,
            },
            Effect::SetEnum { field, enum_type, enum_variant, .. } => match lookup(state, field@) {
                Some(Val::Enum { variants, .. }) => unit_variant(variants, enum_variant@)
                    && resolves_enum(types, enum_type@),
                _ => false,
            },
            Effect::SetBool { field, .. }
            | Effect::SetInt { field, .. }
            | Effect::SetFloat { field, .. }
            | Effect::IncrementInt { field, .. }
            | Effect::IncrementFloat { field, .. } => lookup(state, field@) is Some,
        }
    }

    /// The state after the effect. A write of a literal to a field of
    /// another type leaves the state unchanged; an integer increment wraps
    /// around. The sum that an increment of a floating-point field makes
    /// is not computed here (see [`Effect::needs_float_arithmetic`]): that
    /// effect leaves the state unchanged.
    pub open spec fn applied(self, state: Seq<(Seq<char>, Val)>) -> Seq<(Seq<char>, Val)> {
        match self {
            Effect::SetBool { field, value, .. } => match lookup(state, field@) {
                Some(Val::Bool(_)) => with_value(state, field@, Val::Bool(value)),
                _ => state,
            },
            Effect::SetInt { field, value, .. } => match lookup(state, field@) {
                Some(v) => if is_i32(v) {
                    with_value(state, field@, Val::Int { kind: IntKind::I32, value: value as int })
                } else {
                    state
                },
                None => state,
            },
            Effect::IncrementInt { field, by, .. } => match lookup(state, field@) {
                Some(v) => if is_i32(v) {
                    with_value(
                        state,
                        field@,
                        Val::Int { kind: IntKind::I32, value: wrap_i32(int_of(v) + by) },
                    )
                } else {
                    state
                },
                None => state,
            },
            Effect::SetIdentifier { field, field_source, .. } => match lookup(
                state,
                field_source@,
            ) {
                Some(v) => with_value(state, field@, v),
                None => state,
            },
            Effect::SetEnum { field, enum_variant, .. } => match lookup(state, field@) {
                Some(v) => with_value(state, field@, with_variant(v, enum_variant@)),
                None => state,
            },
            Effect::SetNone { field, .. } => match lookup(state, field@) {
                Some(v) => with_value(state, field@, with_variant(v, none_name())),
                None => state,
            },
            Effect::SetFloat { field, value, .. } => match lookup(state, field@) {
                Some(Val::Float { double: false, .. }) => with_value(
                    state,
                    field@,
                    Val::Float { double: false, bits: value as u64 },
                ),
                _ => state,
            },
            Effect::IncrementFloat { .. } => state,
        }
    }

    /// Whether [`Effect::apply`] can apply the effect to `state`: it is
    /// [`Effect::applicable`] and needs no floating-point arithmetic.
    #[verifier::rlimit(30)]
    pub fn can_apply(&self, state: &HtnState, registry: &TypeRegistryModel) -> (r: bool)
        ensures
            r == (self.applicable(state@, registry.types@) && !self.needs_float_arithmetic()),
    {
        if self.float_arithmetic() {
            return false;
        }
        match self {
            Effect::SetIdentifier { field, field_source, .. } => {
                match (state.get(field), state.get(field_source)) {
                    (Some(a), Some(b)) => same_type_exec(a, b),
                    _ => false,
                }
            },
            Effect::SetNone { field, .. } => match state.get(field) {
                Some(Value::Enum { variants, .. }) => {
                    let none = text("None");
                    proof {
                        reveal_strlit("None");
                        assert(none@ =~= none_name());
                    }
                    has_unit_variant(variants, &none)
                },
                _ => false,
            },
            Effect::SetEnum { field, enum_type, enum_variant, .. } => match state.get(field) {
                Some(Value::Enum { variants, .. }) => has_unit_variant(variants, enum_variant)
                    && registry.lookup(enum_type) == Some(true),
                _ => false,
            },
            Effect::SetBool { field, .. }
            | Effect::SetInt { field, .. }
            | Effect::SetFloat { field, .. }
            | Effect::IncrementInt { field, .. }
            | Effect::IncrementFloat { field, .. } => state.get(field).is_some(),
        }
    }

    /// Applies the effect to `state`.
    #[verifier::rlimit(30)]
    pub fn apply(&self, state: &mut HtnState, registry: &TypeRegistryModel)
        requires
            !self.needs_float_arithmetic(),
            self.applicable(old(state)@, registry.types@),
            old(state).wf(),
        ensures
            final(state)@ == self.applied(old(state)@),
            final(state).record_type == old(state).record_type,
            final(state).wf(),
    {
        match self {
            Effect::SetBool { field, value, .. } => {
                let is_bool = match state.get(field) {
                    Some(Value::Bool(_)) => true,
                    _ => false,
                };
                if is_bool {
                    state.set(field, Value::Bool(*value));
                }
            },
            Effect::SetInt { field, value, .. } => {
                let is_int = match state.get(field) {
                    Some(Value::Int { kind: IntKind::I32, .. }) => true,
                    _ => false,
                };
                if is_int {
                    state.set(field, Value::from_i32(*value));
                }
            },
            Effect::IncrementInt { field, by, .. } => {
                match crate::conditions::read_i32(state, field) {
                    Some(i) => state.set(field, Value::from_i32(wrapping_add_i32(i, *by))),
                    None => {},
                }
            },
            Effect::SetIdentifier { field, field_source, .. } => {
                let v = match state.get(field_source) {
                    Some(v) => v.clone(),
                    None => Value::Bool(false),
                };
                state.set(field, v);
            },
            Effect::SetEnum { field, enum_variant, .. } => {
                state.set_variant(field, enum_variant.clone());
            },
            Effect::SetNone { field, .. } => {
                proof {
                    reveal_strlit("None");
                    assert("None"@ =~= none_name());
                }
                state.set_variant(field, text("None"));
            },
            Effect::SetFloat { field, value, .. } => {
                let is_f32 = match state.get(field) {
                    Some(Value::Float { double: false, .. }) => true,
                    _ => false,
                };
                if is_f32 {
                    state.set(field, Value::Float { double: false, bits: *value as u64 });
                }
            },
            Effect::IncrementFloat { .. } => {},
        }
    }

    /// Whether the fields the effect touches exist in `state` with types it
    /// can write, and if not, the message that says why.
    #[verifier::opaque]
    pub open spec fn type_check(
        self,
        state: Seq<(Seq<char>, Val)>,
        types: Seq<RegisteredType>,
        is_expected_effect: bool,
    ) -> Result<(), Seq<char>> {
        let noun = effect_noun(is_expected_effect);
        match self {
            Effect::SetBool { field, syntax, .. }
            | Effect::SetInt { field, syntax, .. }
            | Effect::IncrementInt { field, syntax, .. }
            | Effect::SetFloat { field, syntax, .. }
            | Effect::IncrementFloat { field, syntax, .. } => field_check(noun, state, field@, syntax@),
            Effect::SetIdentifier { field, field_source, syntax } => copy_check(
                noun,
                state,
                field@,
                field_source@,
                syntax@,
            ),
            Effect::SetNone { field, syntax } => none_write_check(noun, state, field@, syntax@),
            Effect::SetEnum { field, enum_type, enum_variant, syntax } => enum_write_check(
                noun,
                state,
                types,
                field@,
                enum_type@,
                enum_variant@,
                syntax@,
            ),
        }
    }

    /// Checks that the fields the effect touches exist in `state` with types
    /// it can write.
    #[verifier::rlimit(30)]
    pub fn verify_types(&self, state: &HtnState, registry: &TypeRegistryModel, is_expected_effect: bool) -> (r:
        Result<(), String>)
        ensures
            r is Ok <==> self.type_check(state@, registry.types@, is_expected_effect) is Ok,
            r matches Err(m) ==> self.type_check(state@, registry.types@, is_expected_effect)
                == Err::<(), Seq<char>>(m@),
    {
        proof {
            reveal(Effect::type_check);
        }
        let noun = noun_of(is_expected_effect);
        match self {
            Effect::SetBool { field, syntax, .. }
            | Effect::SetInt { field, syntax, .. }
            | Effect::IncrementInt { field, syntax, .. }
            | Effect::SetFloat { field, syntax, .. }
            | Effect::IncrementFloat { field, syntax, .. } => verify_field(noun, state, field, syntax),
            Effect::SetIdentifier { field, field_source, syntax } => {
                verify_copy(noun, state, field, field_source, syntax)
            },
            Effect::SetNone { field, syntax } => verify_none_write(noun, state, field, syntax),
            Effect::SetEnum { field, enum_type, enum_variant, syntax } => {
                verify_enum_write(noun, state, registry, field, enum_type, enum_variant, syntax)
            },
        }
    }
}

fn noun_of(is_expected_effect: bool) -> (r: &'static str)
    ensures
        r@ == effect_noun(is_expected_effect),
{
    if is_expected_effect {
        proof {
            reveal_strlit("expected_effect");
        }
        "expected_effect"
    } else {
        proof {
            reveal_strlit("effect");
        }
        "effect"
    }
}

fn verify_field(noun: &str, state: &HtnState, field: &String, syntax: &String) -> (r: Result<(), String>)
    ensures
        r is Ok <==> field_check(noun@, state@, field@, syntax@) is Ok,
        r matches Err(m) ==> field_check(noun@, state@, field@, syntax@) == Err::<(), Seq<char>>(m@),
{
    match state.get(field) {
        Some(_) => Ok(()),
        None => Err(unknown_field(noun, field, syntax)),
    }
}

fn verify_copy(noun: &str, state: &HtnState, field: &String, source: &String, syntax: &String) -> (r:
    Result<(), String>)
    ensures
        r is Ok <==> copy_check(noun@, state@, field@, source@, syntax@) is Ok,
        r matches Err(m) ==> copy_check(noun@, state@, field@, source@, syntax@) == Err::<(), Seq<char>>(m@),
{
    match state.get(field) {
        None => Err(unknown_field(noun, field, syntax)),
        Some(a) => match state.get(source) {
            None => Err(unknown_field(noun, source, syntax)),
            Some(b) => if same_type_exec(a, b) {
                Ok(())
            } else {
                Err(different_types(noun, field, source))
            },
        },
    }
}

#[verifier::rlimit(30)]
fn verify_none_write(noun: &str, state: &HtnState, field: &String, syntax: &String) -> (r: Result<(), String>)
    ensures
        r is Ok <==> none_write_check(noun@, state@, field@, syntax@) is Ok,
        r matches Err(m) ==> none_write_check(noun@, state@, field@, syntax@) == Err::<(), Seq<char>>(m@),
{
    match state.get(field) {
        None => Err(unknown_field(noun, field, syntax)),
        Some(Value::Enum { variants, .. }) => if option_like(variants) {
            Ok(())
        } else {
            Err(not_option(noun, field, syntax))
        },
        Some(_) => Err(not_enum(noun, field)),
    }
}

fn verify_enum_write(
    noun: &str,
    state: &HtnState,
    registry: &TypeRegistryModel,
    field: &String,
    ty: &String,
    variant: &String,
    syntax: &String,
) -> (r: Result<(), String>)
    ensures
        r is Ok <==> enum_write_check(noun@, state@, registry.types@, field@, ty@, variant@, syntax@) is Ok,
        r matches Err(m) ==> enum_write_check(noun@, state@, registry.types@, field@, ty@, variant@, syntax@)
            == Err::<(), Seq<char>>(m@),
{
    match state.get(field) {
        None => Err(unknown_field(noun, field, syntax)),
        Some(Value::Enum { variants, type_path, type_ident, .. }) => {
            if find_variant(variants, variant).is_none() {
                Err(no_variant(noun, variant, field))
            } else if registry.lookup(type_path).is_none() {
                Err(unregistered(noun, ty))
            } else if *type_ident != *ty {
                Err(enum_mismatch(noun, field, ty, variant))
            } else {
                Ok(())
            }
        },
        Some(_) => Err(not_enum(noun, field)),
    }
}

fn option_like(variants: &Vec<VariantInfo>) -> (r: bool)
    ensures
        r == (has_variant(variants_view(variants@), none_name()) && has_variant(
            variants_view(variants@),
            some_name(),
        )),
{
    proof {
        reveal_strlit("None");
        reveal_strlit("Some");
        assert("None"@ =~= none_name());
        assert("Some"@ =~= some_name());
    }
    let has_none = find_variant(variants, &text("None")).is_some();
    let has_some = find_variant(variants, &text("Some")).is_some();
    has_none && has_some
}

fn different_types(noun: &str, field: &String, source: &String) -> (r: String)
    ensures
        r@ == different_types_msg(noun@, field@, source@),
{
    let m = join(text("An "), noun);
    let m = join(m, " is trying to set '");
    let m = join(m, field.as_str());
    let m = join(m, "' to '");
    let m = join(m, source.as_str());
    join(m, "' but they are different types")
}

fn not_option(noun: &str, field: &String, syntax: &String) -> (r: String)
    ensures
        r@ == not_option_msg(noun@, field@, syntax@),
{
    let m = join(text(noun), " field '");
    let m = join(m, field.as_str());
    let m = join(m, "' is not an Option enum, for: ");
    join(m, syntax.as_str())
}

fn no_variant(noun: &str, variant: &String, field: &String) -> (r: String)
    ensures
        r@ == no_variant_msg(noun@, variant@, field@),
{
    let m = join(text(noun), " enum variant '");
    let m = join(m, variant.as_str());
    let m = join(m, "' not found, field name: '");
    let m = join(m, field.as_str());
    join(m, "'")
}

fn unregistered(noun: &str, ty: &String) -> (r: String)
    ensures
        r@ == unregistered_msg(noun@, ty@),
{
    let m = join(text(noun), " enum type '");
    let m = join(m, ty.as_str());
    join(m, "' not found in type registry")
}

fn enum_mismatch(noun: &str, field: &String, ty: &String, variant: &String) -> (r: String)
    ensures
        r@ == enum_mismatch_msg(noun@, field@, ty@, variant@),
{
    let m = join(text(noun), " enum type mismatch when setting field '");
    let m = join(m, field.as_str());
    let m = join(m, "' to ");
    let m = join(m, ty.as_str());
    let m = join(m, "::");
    join(m, variant.as_str())
}

fn unknown_field(noun: &str, field: &String, syntax: &String) -> (r: String)
    ensures
        r@ == unknown_field_msg(noun@, field@, syntax@),
{
    let m = join(text("Unknown state field `"), field.as_str());
    let m = join(m, "` for ");
    let m = join(m, noun);
    let m = join(m, " `");
    let m = join(m, syntax.as_str());
    join(m, "`")
}

fn not_enum(noun: &str, field: &String) -> (r: String)
    ensures
        r@ == not_enum_msg(noun@, field@),
{
    let m = join(text(noun), " field '");
    let m = join(m, field.as_str());
    join(m, "' should be an enum!")
}

impl Effect {
    /// The field the effect writes.
    pub open spec fn field_of(self) -> String {
        match self {
            Effect::SetBool { field, .. } => field,
            Effect::SetInt { field, .. } => field,
            Effect::SetFloat { field, .. } => field,
            Effect::SetIdentifier { field, .. } => field,
            Effect::IncrementInt { field, .. } => field,
            Effect::IncrementFloat { field, .. } => field,
            Effect::SetEnum { field, .. } => field,
            Effect::SetNone { field, .. } => field,
        }
    }
}

/// The sum of two `f32` values, as bit patterns: `sum` is the bits of
/// `left + right`.
#[derive(Debug, Clone, Copy, PartialEq, Eq, Structural)]
pub struct FloatSum {
    pub left: u32,
    pub right: u32,
    pub sum: u32,
}

/// The sum of `a` and `b` that the first entry of `sums` for them gives.
pub open spec fn sum_of(sums: Seq<FloatSum>, a: u32, b: u32) -> Option<u32>
    decreases sums.len(),
{
    if sums.len() == 0 {
        None
    } else if sums[0].left == a && sums[0].right == b {
        Some(sums[0].sum)
    } else {
        sum_of(sums.drop_first(), a, b)
    }
}

/// Looks up the sum of `a` and `b` in `sums`.
pub fn find_sum(sums: &Vec<FloatSum>, a: u32, b: u32) -> (r: Option<u32>)
    ensures
        r == sum_of(sums@, a, b),
{
    let mut i: usize = 0;
    assert(sums@.skip(0) =~= sums@);
    while i < sums.len()
        invariant
            0 <= i <= sums@.len(),
            sum_of(sums@, a, b) == sum_of(sums@.skip(i as int), a, b),
        decreases sums@.len() - i,
    {
        let ghost rest = sums@.skip(i as int);
        assert(rest[0] == sums@[i as int]);
        assert(rest.drop_first() =~= sums@.skip(i + 1));
        if sums[i].left == a && sums[i].right == b {
            return Some(sums[i].sum);
        }
        i = i + 1;
    }
    assert(sums@.skip(i as int) =~= Seq::<FloatSum>::empty());
    None
}

impl Effect {
    /// The state after the effect, with the sum that an increment of an
    /// `f32` field makes taken from `sums`: `Err((a, b))` when that sum of
    /// the bits `a` and `b` is not there. An increment of a field of another
    /// type leaves the state unchanged; every other effect is
    /// [`Effect::applied`].
    pub open spec fn applied_with(self, state: Seq<(Seq<char>, Val)>, sums: Seq<FloatSum>) -> Result<
        Seq<(Seq<char>, Val)>,
        (u32, u32),
    > {
        match self {
            Effect::IncrementFloat { field, by, .. } => match lookup(state, field@) {
                Some(Val::Float { double: false, bits }) => match sum_of(sums, bits as u32, by) {
                    Some(r) => Ok(with_value(state, field@, Val::Float { double: false, bits: r as u64 })),
                    None => Err((bits as u32, by)),
                },
                _ => Ok(state),
            },
            _ => Ok(self.applied(state)),
        }
    }
}

/// What makes an effect well typed on `state`: the field it writes
/// exists; a copy reads an existing field of the same type; a write of
/// `None` writes to an enum field with `None` and `Some` variants; a write
/// of `T::V` writes to an enum field of a registered type named `T` that
/// has a variant `V`.
pub open spec fn well_typed_effect(e: Effect, state: Seq<(Seq<char>, Val)>, types: Seq<RegisteredType>) -> bool {
    match e {
        Effect::SetBool { field, .. }
        | Effect::SetInt { field, .. }
        | Effect::IncrementInt { field, .. }
        | Effect::SetFloat { field, .. }
        | Effect::IncrementFloat { field, .. } => lookup(state, field@) is Some,
        Effect::SetIdentifier { field, field_source, .. } => lookup(state, field@) matches Some(a)
            && lookup(state, field_source@) matches Some(b) && same_type(a, b),
        Effect::SetNone { field, .. } => lookup(state, field@) matches Some(Val::Enum { variants, .. })
            && has_variant(variants, none_name()) && has_variant(variants, some_name()),
        Effect::SetEnum { field, enum_type, enum_variant, .. } => lookup(state, field@) matches Some(
            Val::Enum { variants, type_path, type_ident, .. },
        ) && has_variant(variants, enum_variant@) && resolves(types, type_path) && type_ident
            == enum_type@,
    }
}

/// An effect passes its type check on a state exactly when it is well
/// typed there (see [`well_typed_effect`]), as an effect or as an expected
/// effect alike.
pub proof fn law_effect_type_check_accepts_well_typed(
    e: Effect,
    state: Seq<(Seq<char>, Val)>,
    types: Seq<RegisteredType>,
    is_expected_effect: bool,
)
    ensures
        e.type_check(state, types, is_expected_effect) is Ok <==> well_typed_effect(e, state, types),
{
    reveal(Effect::type_check);
}

/// An effect writes only its own field: every other field reads the same
/// after it, and no field is added, removed or renamed.
pub proof fn law_effect_frame(e: Effect, state: Seq<(Seq<char>, Val)>, other: Seq<char>)
    requires
        other != e.field_of()@,
    ensures
        lookup(e.applied(state), other) == lookup(state, other),
        e.applied(state).len() == state.len(),
        forall|i: int| 0 <= i < state.len() ==> #[trigger] e.applied(state)[i].0 == state[i].0,
{
    match e {
        Effect::SetBool { field, value, .. } => lemma_with_value(state, field@, Val::Bool(value), other),
        Effect::SetInt { field, value, .. } => lemma_with_value(
            state,
            field@,
            Val::Int { kind: IntKind::I32, value: value as int },
            other,
        ),
        Effect::IncrementInt { field, by, .. } => {
            if let Some(v) = lookup(state, field@) {
                lemma_with_value(
                    state,
                    field@,
                    Val::Int { kind: IntKind::I32, value: wrap_i32(int_of(v) + by) },
                    other,
                );
            }
        },
        Effect::SetIdentifier { field, field_source, .. } => {
            if let Some(v) = lookup(state, field_source@) {
                lemma_with_value(state, field@, v, other);
            }
        },
        Effect::SetEnum { field, enum_variant, .. } => {
            if let Some(v) = lookup(state, field@) {
                lemma_with_value(state, field@, with_variant(v, enum_variant@), other);
            }
        },
        Effect::SetNone { field, .. } => {
            if let Some(v) = lookup(state, field@) {
                lemma_with_value(state, field@, with_variant(v, none_name()), other);
            }
        },
        Effect::SetFloat { field, value, .. } => lemma_with_value(
            state,
            field@,
            Val::Float { double: false, bits: value as u64 },
            other,
        ),
        Effect::IncrementFloat { .. } => {},
    }
}

/// An applicable effect keeps the type of every field: a field exists after
/// it exactly when it existed before, with a value of the same type.
pub proof fn law_effect_keeps_types(
    e: Effect,
    state: Seq<(Seq<char>, Val)>,
    types: Seq<RegisteredType>,
    name: Seq<char>,
)
    requires
        e.applicable(state, types),
    ensures
        lookup(e.applied(state), name) is Some <==> lookup(state, name) is Some,
        lookup(state, name) matches Some(a) ==> lookup(e.applied(state), name) matches Some(b)
            && same_type(a, b),
{
    if name != e.field_of()@ {
        law_effect_frame(e, state, name);
    } else {
        match e {
            Effect::SetBool { field, value, .. } => lemma_with_value(state, field@, Val::Bool(value), name),
            Effect::SetInt { field, value, .. } => lemma_with_value(
                state,
                field@,
                Val::Int { kind: IntKind::I32, value: value as int },
                name,
            ),
            Effect::IncrementInt { field, by, .. } => {
                if let Some(v) = lookup(state, field@) {
                    lemma_with_value(
                        state,
                        field@,
                        Val::Int { kind: IntKind::I32, value: wrap_i32(int_of(v) + by) },
                        name,
                    );
                }
            },
            Effect::SetIdentifier { field, field_source, .. } => {
                if let Some(v) = lookup(state, field_source@) {
                    lemma_with_value(state, field@, v, name);
                }
            },
            Effect::SetEnum { field, enum_variant, .. } => {
                if let Some(v) = lookup(state, field@) {
                    lemma_with_value(state, field@, with_variant(v, enum_variant@), name);
                }
            },
            Effect::SetNone { field, .. } => {
                if let Some(v) = lookup(state, field@) {
                    lemma_with_value(state, field@, with_variant(v, none_name()), name);
                }
            },
            Effect::SetFloat { field, value, .. } => lemma_with_value(
                state,
                field@,
                Val::Float { double: false, bits: value as u64 },
                name,
            ),
            Effect::IncrementFloat { .. } => {},
        }
    }
}

/// Every write that is not an increment is idempotent: making it twice
/// leaves the state as making it once does.
pub proof fn law_write_idempotent(e: Effect, state: Seq<(Seq<char>, Val)>)
    requires
        !(e is IncrementInt),
        !(e is IncrementFloat),
    ensures
        e.applied(e.applied(state)) == e.applied(state),
{
    match e {
        Effect::SetBool { field, value, .. } => {
            lemma_with_value(state, field@, Val::Bool(value), field@);
            lemma_with_value_idem(state, field@, Val::Bool(value));
        },
        Effect::SetInt { field, value, .. } => {
            let nv = Val::Int { kind: IntKind::I32, value: value as int };
            lemma_with_value(state, field@, nv, field@);
            lemma_with_value_idem(state, field@, nv);
        },
        Effect::SetFloat { field, value, .. } => {
            let nv = Val::Float { double: false, bits: value as u64 };
            lemma_with_value(state, field@, nv, field@);
            lemma_with_value_idem(state, field@, nv);
        },
        Effect::SetEnum { field, enum_variant, .. } => {
            if let Some(v) = lookup(state, field@) {
                let nv = with_variant(v, enum_variant@);
                lemma_with_value(state, field@, nv, field@);
                assert(with_variant(nv, enum_variant@) == nv);
                lemma_with_value_idem(state, field@, nv);
            }
        },
        Effect::SetNone { field, .. } => {
            if let Some(v) = lookup(state, field@) {
                let nv = with_variant(v, none_name());
                lemma_with_value(state, field@, nv, field@);
                assert(with_variant(nv, none_name()) == nv);
                lemma_with_value_idem(state, field@, nv);
            }
        },
        Effect::SetIdentifier { field, field_source, .. } => {
            if let Some(v) = lookup(state, field_source@) {
                lemma_with_value(state, field@, v, field_source@);
                lemma_with_value_idem(state, field@, v);
            }
        },
        _ => {},
    }
}

/// After writing a non-NaN `f32` literal to an `f32` field, a test that the
/// field equals that literal holds.
pub proof fn law_set_float_then_equals(
    field: String,
    value: u32,
    state: Seq<(Seq<char>, Val)>,
    write: String,
    test: String,
)
    requires
        lookup(state, field@) matches Some(Val::Float { double: false, .. }),
        !float_is_nan(false, value as u64),
    ensures
        (HtnCondition::EqualsFloat { field, value, notted: false, syntax: test }).holds(
            (Effect::SetFloat { field, value, syntax: write }).applied(state),
        ),
{
    lemma_with_value(state, field@, Val::Float { double: false, bits: value as u64 }, field@);
}

/// After writing a boolean to a boolean field, a test that the field
/// equals that boolean holds.
pub proof fn law_set_bool_then_equals(
    field: String,
    value: bool,
    state: Seq<(Seq<char>, Val)>,
    write: String,
    test: String,
)
    requires
        lookup(state, field@) matches Some(Val::Bool(_)),
    ensures
        (HtnCondition::EqualsBool { field, value, notted: false, syntax: test }).holds(
            (Effect::SetBool { field, value, syntax: write }).applied(state),
        ),
{
    lemma_with_value(state, field@, Val::Bool(value), field@);
}

/// After writing an integer to an `i32` field, a test that the field
/// equals that integer holds.
pub proof fn law_set_int_then_equals(
    field: String,
    value: i32,
    state: Seq<(Seq<char>, Val)>,
    write: String,
    test: String,
)
    requires
        lookup(state, field@) matches Some(v) && is_i32(v),
    ensures
        (HtnCondition::EqualsInt { field, value, notted: false, syntax: test }).holds(
            (Effect::SetInt { field, value, syntax: write }).applied(state),
        ),
{
    lemma_with_value(state, field@, Val::Int { kind: IntKind::I32, value: value as int }, field@);
}

/// After writing a variant to an enum field, a test that the field is that
/// variant holds, and a test that it is not that variant fails.
pub proof fn law_set_enum_then_equals(
    field: String,
    enum_type: String,
    enum_variant: String,
    state: Seq<(Seq<char>, Val)>,
    write: String,
    test: String,
)
    requires
        lookup(state, field@) matches Some(Val::Enum { .. }),
    ensures
        (HtnCondition::EqualsEnum {
            field,
            enum_type,
            enum_variant,
            notted: false,
            syntax: test,
        }).holds((Effect::SetEnum { field, enum_type, enum_variant, syntax: write }).applied(state)),
        !(HtnCondition::EqualsEnum {
            field,
            enum_type,
            enum_variant,
            notted: true,
            syntax: test,
        }).holds((Effect::SetEnum { field, enum_type, enum_variant, syntax: write }).applied(state)),
{
    let v = lookup(state, field@).unwrap();
    lemma_with_value(state, field@, with_variant(v, enum_variant@), field@);
}

/// After writing `None` to an `Option` field, a test that the field is
/// `None` holds and a test that it is `Some` fails.
pub proof fn law_set_none_then_is_none(field: String, state: Seq<(Seq<char>, Val)>, write: String, test: String)
    requires
        lookup(state, field@) matches Some(Val::Enum { variants, .. }) && is_option(variants),
    ensures
        (HtnCondition::IsNone { field, syntax: test }).holds(
            (Effect::SetNone { field, syntax: write }).applied(state),
        ),
        !(HtnCondition::IsSome { field, syntax: test }).holds(
            (Effect::SetNone { field, syntax: write }).applied(state),
        ),
{
    let v = lookup(state, field@).unwrap();
    lemma_with_value(state, field@, with_variant(v, none_name()), field@);
}

/// After copying one field into another, a test that the two are equal
/// holds, unless the copied value is a floating-point NaN.
pub proof fn law_copy_then_equals(
    field: String,
    field_source: String,
    state: Seq<(Seq<char>, Val)>,
    write: String,
    test: String,
)
    requires
        lookup(state, field@) is Some,
        lookup(state, field_source@) matches Some(v) && !(v matches Val::Float { double, bits }
            && float_is_nan(double, bits)),
    ensures
        (HtnCondition::EqualsIdentifier {
            field,
            other_field: field_source,
            notted: false,
            syntax: test,
        }).holds((Effect::SetIdentifier { field, field_source, syntax: write }).applied(state)),
{
    let v = lookup(state, field_source@).unwrap();
    lemma_with_value(state, field@, v, field@);
    lemma_with_value(state, field@, v, field_source@);
}

/// Adding `by` to an `i32` field and then adding `-by` gives back the
/// state (both additions wrap around).
pub proof fn law_increment_undo(field: String, by: i32, state: Seq<(Seq<char>, Val)>, s1: String, s2: String)
    requires
        lookup(state, field@) matches Some(v) && is_i32(v) && i32::MIN <= int_of(v) <= i32::MAX,
        by > i32::MIN,
    ensures
        (Effect::IncrementInt { field, by: -by as i32, syntax: s2 }).applied(
            (Effect::IncrementInt { field, by, syntax: s1 }).applied(state),
        ) == state,
{
    let v = lookup(state, field@).unwrap();
    let x = int_of(v);
    let once = wrap_i32(x + by);
    lemma_first_index_bounds(state, field@);
    let i = first_index(state, field@).unwrap();
    let mid = with_value(state, field@, Val::Int { kind: IntKind::I32, value: once });
    lemma_with_value(state, field@, Val::Int { kind: IntKind::I32, value: once }, field@);
    lemma_first_index_names(mid, state, field@);
    assert((-by as i32) == -by);
    assert(wrap_i32(once + (-by as i32)) == x);
    let back = with_value(mid, field@, Val::Int { kind: IntKind::I32, value: x });
    assert(back =~= state);
}

/// An effect that passes its type check on a state can be applied to it,
/// except where the check leaves a failure open: a write of an enum variant
/// that carries data, or whose enum type the registry does not resolve to
/// an enum, and a write of `None` to a field whose `None` variant carries
/// data.
pub proof fn law_checked_effect_applicable(
    e: Effect,
    state: Seq<(Seq<char>, Val)>,
    types: Seq<RegisteredType>,
    is_expected_effect: bool,
)
    requires
        e.type_check(state, types, is_expected_effect) is Ok,
        e matches Effect::SetEnum { field, enum_type, enum_variant, .. } ==> resolves_enum(
            types,
            enum_type@,
        ) && (lookup(state, field@) matches Some(Val::Enum { variants, .. }) ==> unit_variant(
            variants,
            enum_variant@,
        )),
        e matches Effect::SetNone { field, .. } ==> (lookup(state, field@) matches Some(
            Val::Enum { variants, .. },
        ) ==> unit_variant(variants, none_name())),
    ensures
        e.applicable(state, types),
{
    reveal(Effect::type_check);
}

} // verus!
