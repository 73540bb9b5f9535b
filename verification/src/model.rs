//! The world state that conditions read and effects write: a record of
//! named fields, each holding a typed value.
use vstd::prelude::*;

verus! {

/// The primitive integer types a state field may have.
#[derive(Debug, Clone, Copy, PartialEq, Eq, Structural)]
pub enum IntKind {
    I8,
    I16,
    I32,
    I64,
    I128,
    U8,
    U16,
    U32,
    U64,
    U128,
}

/// Smallest value of an integer kind.
pub open spec fn kind_min(k: IntKind) -> int {
    match k {
        IntKind::I8 => -0x80,
        IntKind::I16 => -0x8000,
        IntKind::I32 => -0x8000_0000,
        IntKind::I64 => -0x8000_0000_0000_0000,
        IntKind::I128 => -0x8000_0000_0000_0000_0000_0000_0000_0000,
        _ => 0,
    }
}

/// Largest value of an integer kind.
pub open spec fn kind_max(k: IntKind) -> int {
    match k {
        IntKind::I8 => 0x7f,
        IntKind::I16 => 0x7fff,
        IntKind::I32 => 0x7fff_ffff,
        IntKind::I64 => 0x7fff_ffff_ffff_ffff,
        IntKind::I128 => 0x7fff_ffff_ffff_ffff_ffff_ffff_ffff_ffff,
        IntKind::U8 => 0xff,
        IntKind::U16 => 0xffff,
        IntKind::U32 => 0xffff_ffff,
        IntKind::U64 => 0xffff_ffff_ffff_ffff,
        IntKind::U128 => 0xffff_ffff_ffff_ffff_ffff_ffff_ffff_ffff,
    }
}

/// One variant of an enum type: its name and whether it carries no data.
#[derive(Debug, PartialEq)]
pub struct VariantInfo {
    pub name: String,
    pub unit: bool,
}

impl Clone for VariantInfo {
    fn clone(&self) -> (r: Self)
        ensures
            r == *self,
    {
        VariantInfo { name: self.name.clone(), unit: self.unit }
    }
}

/// The value of one state field.
///
/// Integers are held as a sign and a magnitude so that every integer kind,
/// `u128` included, fits; zero is never negative. Floating-point fields are
/// held as their IEEE-754 bit pattern (`f32` in the low 32 bits). Enum
/// fields record their type, all variants of the type, the current variant
/// and a token that stands for the data the current variant carries (0 for
/// a variant without data). Any other field is held by its type path and a
/// token: two such values are equal when both agree.
#[derive(Debug, PartialEq)]
pub enum Value {
    Bool(bool),
    Int { kind: IntKind, negative: bool, magnitude: u128 },
    Float { double: bool, bits: u64 },
    Enum {
        type_path: String,
        type_ident: String,
        variants: Vec<VariantInfo>,
        variant: String,
        payload: u64,
    },
    Other { type_path: String, token: u64 },
}

/// The mathematical model of a [`Value`].
pub enum Val {
    Bool(bool),
    Int { kind: IntKind, value: int },
    Float { double: bool, bits: u64 },
    Enum {
        type_path: Seq<char>,
        type_ident: Seq<char>,
        variants: Seq<(Seq<char>, bool)>,
        variant: Seq<char>,
        payload: u64,
    },
    Other { type_path: Seq<char>, token: u64 },
}

/// The model of a list of variants: each name with whether it carries no data.
pub open spec fn variants_view(v: Seq<VariantInfo>) -> Seq<(Seq<char>, bool)> {
    v.map_values(|x: VariantInfo| (x.name@, x.unit))
}

/// The mathematical value of an integer held as sign and magnitude.
pub open spec fn signed_value(negative: bool, magnitude: u128) -> int {
    if negative { -(magnitude as int) } else { magnitude as int }
}

impl View for Value {
    type V = Val;

    open spec fn view(&self) -> Val {
        match *self {
            Value::Bool(b) => Val::Bool(b),
            Value::Int { kind, negative, magnitude } => Val::Int {
                kind,
                value: signed_value(negative, magnitude),
            },
            Value::Float { double, bits } => Val::Float { double, bits },
            Value::Enum { type_path, type_ident, variants, variant, payload } => Val::Enum {
                type_path: type_path@,
                type_ident: type_ident@,
                variants: variants_view(variants@),
                variant: variant@,
                payload,
            },
            Value::Other { type_path, token } => Val::Other { type_path: type_path@, token },
        }
    }
}

/// Whether some variant is named `name`.
pub open spec fn lists_variant(variants: Seq<(Seq<char>, bool)>, name: Seq<char>) -> bool {
    exists|i: int| 0 <= i < variants.len() && #[trigger] variants[i].0 == name
}

impl Value {
    /// Well-formedness: integers are canonical and in range of their kind,
    /// `f32` bits fit in 32 bits, and an enum's current variant is one of
    /// its type's variants.
    pub open spec fn wf(&self) -> bool {
        match *self {
            Value::Int { kind, negative, magnitude } => {
                &&& !(negative && magnitude == 0)
                &&& kind_min(kind) <= signed_value(negative, magnitude) <= kind_max(kind)
            },
            Value::Float { double, bits } => !double ==> bits < 0x1_0000_0000,
            Value::Enum { variants, variant, .. } => lists_variant(variants_view(variants@), variant@),
            _ => true,
        }
    }

    /// The `i32` value `v`.
    pub fn from_i32(v: i32) -> (r: Value)
        ensures
            r@ == (Val::Int { kind: IntKind::I32, value: v as int }),
            r.wf(),
    {
        if v < 0 {
            let m: i128 = -(v as i128);
            Value::Int { kind: IntKind::I32, negative: true, magnitude: m as u128 }
        } else {
            Value::Int { kind: IntKind::I32, negative: false, magnitude: v as u128 }
        }
    }
}

/// A copy of a list of variants.
pub fn clone_variants(v: &Vec<VariantInfo>) -> (r: Vec<VariantInfo>)
    ensures
        r@ == v@,
{
    let r = v.clone();
    assert(r@ =~= v@);
    r
}

impl Clone for Value {
    fn clone(&self) -> (r: Self)
        ensures
            r@ == self@,
            self.wf() ==> r.wf(),
    {
        match self {
            Value::Bool(b) => Value::Bool(*b),
            Value::Int { kind, negative, magnitude } => Value::Int {
                kind: *kind,
                negative: *negative,
                magnitude: *magnitude,
            },
            Value::Float { double, bits } => Value::Float { double: *double, bits: *bits },
            Value::Enum { type_path, type_ident, variants, variant, payload } => Value::Enum {
                type_path: type_path.clone(),
                type_ident: type_ident.clone(),
                variants: clone_variants(variants),
                variant: variant.clone(),
                payload: *payload,
            },
            Value::Other { type_path, token } => Value::Other {
                type_path: type_path.clone(),
                token: *token,
            },
        }
    }
}

/// A named field of the state.
#[derive(Debug, PartialEq)]
pub struct Field {
    pub name: String,
    pub value: Value,
}

impl Clone for Field {
    fn clone(&self) -> (r: Self)
        ensures
            r.name == self.name,
            r.value@ == self.value@,
            self.value.wf() ==> r.value.wf(),
    {
        Field { name: self.name.clone(), value: self.value.clone() }
    }
}

/// The planner state: the name of its record type and the fields of the
/// record, in declaration order.
#[derive(Debug, PartialEq)]
pub struct HtnState {
    pub record_type: String,
    pub fields: Vec<Field>,
}

/// The model of the fields: each name with the model of its value.
pub open spec fn fields_view(f: Seq<Field>) -> Seq<(Seq<char>, Val)> {
    f.map_values(|x: Field| (x.name@, x.value@))
}

impl View for HtnState {
    type V = Seq<(Seq<char>, Val)>;

    open spec fn view(&self) -> Seq<(Seq<char>, Val)> {
        fields_view(self.fields@)
    }
}

/// A type that the type registry can resolve by name: whether it is an
/// enum, whether its registration offers a default value, and whether it
/// offers the task operator behaviour.
#[derive(Debug, Clone, PartialEq)]
pub struct RegisteredType {
    pub name: String,
    pub is_enum: bool,
    pub has_default: bool,
    pub is_operator: bool,
}

/// The names that the application's type registry resolves.
#[derive(Debug, Clone, PartialEq)]
pub struct TypeRegistryModel {
    pub types: Vec<RegisteredType>,
}

/// Index of the first field named `name`.
pub open spec fn first_index(fields: Seq<(Seq<char>, Val)>, name: Seq<char>) -> Option<int>
    decreases fields.len(),
{
    if fields.len() == 0 {
        None
    } else if fields[0].0 == name {
        Some(0)
    } else {
        match first_index(fields.drop_first(), name) {
            Some(i) => Some(i + 1),
            None => None,
        }
    }
}

/// Scanning the fields in order and meeting `name` first at `i` (or never,
/// when `i` is the length) determines `first_index`.
pub proof fn lemma_first_index(fields: Seq<(Seq<char>, Val)>, name: Seq<char>, i: int)
    requires
        0 <= i <= fields.len(),
        forall|j: int| 0 <= j < i ==> #[trigger] fields[j].0 != name,
        i < fields.len() ==> fields[i].0 == name,
    ensures
        first_index(fields, name) == (if i < fields.len() { Some(i) } else { None::<int> }),
    decreases i,
{
    if fields.len() > 0 && i > 0 {
        let rest = fields.drop_first();
        assert forall|j: int| 0 <= j < i - 1 implies #[trigger] rest[j].0 != name by {
            assert(rest[j] == fields[j + 1]);
        }
        lemma_first_index(rest, name, i - 1);
    }
}

/// `first_index` points at a field with that name.
pub proof fn lemma_first_index_bounds(fields: Seq<(Seq<char>, Val)>, name: Seq<char>)
    ensures
        first_index(fields, name) matches Some(i) ==> 0 <= i < fields.len() && fields[i].0 == name,
    decreases fields.len(),
{
    if fields.len() > 0 && fields[0].0 != name {
        lemma_first_index_bounds(fields.drop_first(), name);
    }
}

/// The value of the field named `name`, if there is one.
pub open spec fn lookup(fields: Seq<(Seq<char>, Val)>, name: Seq<char>) -> Option<Val> {
    match first_index(fields, name) {
        Some(i) => Some(fields[i].1),
        None => None,
    }
}

/// The fields with the one named `name` holding `v` (unchanged when there is
/// no such field).
pub open spec fn with_value(fields: Seq<(Seq<char>, Val)>, name: Seq<char>, v: Val) -> Seq<
    (Seq<char>, Val),
> {
    match first_index(fields, name) {
        Some(i) => fields.update(i, (name, v)),
        None => fields,
    }
}

/// Two field lists with the same names, in the same order, find every name
/// at the same place.
pub proof fn lemma_first_index_names(a: Seq<(Seq<char>, Val)>, b: Seq<(Seq<char>, Val)>, name: Seq<char>)
    requires
        a.len() == b.len(),
        forall|i: int| 0 <= i < a.len() ==> #[trigger] a[i].0 == b[i].0,
    ensures
        first_index(a, name) == first_index(b, name),
    decreases a.len(),
{
    if a.len() > 0 {
        assert(a[0].0 == b[0].0);
        let (ra, rb) = (a.drop_first(), b.drop_first());
        assert forall|i: int| 0 <= i < ra.len() implies #[trigger] ra[i].0 == rb[i].0 by {
            assert(ra[i] == a[i + 1] && rb[i] == b[i + 1]);
        }
        lemma_first_index_names(ra, rb, name);
    }
}

/// Writing a field keeps the names of all fields, in order; the written
/// field reads back the value written, and every other field reads as
/// before.
pub proof fn lemma_with_value(fields: Seq<(Seq<char>, Val)>, name: Seq<char>, v: Val, other: Seq<char>)
    ensures
        with_value(fields, name, v).len() == fields.len(),
        forall|i: int| 0 <= i < fields.len() ==> #[trigger] with_value(fields, name, v)[i].0 == fields[i].0,
        lookup(fields, name) is Some ==> lookup(with_value(fields, name, v), name) == Some(v),
        other != name ==> lookup(with_value(fields, name, v), other) == lookup(fields, other),
{
    lemma_first_index_bounds(fields, name);
    let w = with_value(fields, name, v);
    assert forall|i: int| 0 <= i < fields.len() implies #[trigger] w[i].0 == fields[i].0 by {}
    lemma_first_index_names(w, fields, name);
    lemma_first_index_names(w, fields, other);
    if let Some(i) = first_index(fields, name) {
        lemma_first_index_bounds(fields, other);
        if other != name {
            if let Some(j) = first_index(fields, other) {
                assert(j != i);
            }
        }
    }
}

/// Writing a field with the value it already holds changes nothing, and a
/// second write of a value changes nothing after the first.
pub proof fn lemma_with_value_idem(fields: Seq<(Seq<char>, Val)>, name: Seq<char>, v: Val)
    ensures
        lookup(fields, name) == Some(v) ==> with_value(fields, name, v) == fields,
        with_value(with_value(fields, name, v), name, v) == with_value(fields, name, v),
{
    lemma_first_index_bounds(fields, name);
    let w = with_value(fields, name, v);
    lemma_with_value(fields, name, v, name);
    lemma_first_index_names(w, fields, name);
    if let Some(i) = first_index(fields, name) {
        assert(w[i] == (name, v));
        assert(with_value(w, name, v) =~= w);
        if lookup(fields, name) == Some(v) {
            assert(w =~= fields);
        }
    }
}

impl HtnState {
    /// Every field value is well formed.
    pub open spec fn wf(&self) -> bool {
        forall|i: int| 0 <= i < self.fields@.len() ==> (#[trigger] self.fields@[i]).value.wf()
    }

    /// Position of the field named `name`.
    pub fn find(&self, name: &String) -> (r: Option<usize>)
        ensures
            r matches Some(i) ==> first_index(self@, name@) == Some(i as int) && i
                < self.fields@.len(),
            r is None ==> first_index(self@, name@) is None,
    {
        let mut i: usize = 0;
        while i < self.fields.len()
            invariant
                0 <= i <= self.fields@.len(),
                forall|j: int| 0 <= j < i ==> #[trigger] self@[j].0 != name@,
            decreases self.fields@.len() - i,
        {
            if self.fields[i].name == *name {
                proof {
                    lemma_first_index(self@, name@, i as int);
                }
                return Some(i);
            }
            i = i + 1;
        }
        proof {
            lemma_first_index(self@, name@, i as int);
        }
        None
    }

    /// The value of the field named `name`.
    pub fn get(&self, name: &String) -> (r: Option<&Value>)
        ensures
            r matches Some(v) ==> lookup(self@, name@) == Some(v@) && (self.wf() ==> v.wf()),
            r is None ==> lookup(self@, name@) is None,
    {
        match self.find(name) {
            Some(i) => Some(&self.fields[i].value),
            None => None,
        }
    }

    /// Stores `v` in the field named `name`.
    pub fn set(&mut self, name: &String, v: Value)
        ensures
            final(self)@ == with_value(old(self)@, name@, v@),
            final(self).record_type == old(self).record_type,
            old(self).wf() && v.wf() ==> final(self).wf(),
    {
        match self.find(name) {
            Some(i) => {
                proof {
                    lemma_first_index_bounds(self@, name@);
                }
                let fname = self.fields[i].name.clone();
                self.fields.set(i, Field { name: fname, value: v });
                proof {
                    assert(self@ =~= old(self)@.update(i as int, (name@, v@)));
                }
            },
            None => {},
        }
    }

    /// Switches the enum field named `name` to the data-less variant
    /// `variant`.
    pub fn set_variant(&mut self, name: &String, variant: String)
        ensures
            final(self)@ == match lookup(old(self)@, name@) {
                Some(v) => with_value(old(self)@, name@, with_variant(v, variant@)),
                None => old(self)@,
            },
            final(self).record_type == old(self).record_type,
            old(self).wf() && (lookup(old(self)@, name@) matches Some(Val::Enum { variants, .. })
                ==> lists_variant(variants, variant@)) ==> final(self).wf(),
    {
        match self.find(name) {
            Some(i) => {
                proof {
                    lemma_first_index_bounds(self@, name@);
                }
                let old_field = self.fields.remove(i);
                let new_value = match old_field.value {
                    Value::Enum { type_path, type_ident, variants, .. } => Value::Enum {
                        type_path,
                        type_ident,
                        variants,
                        variant,
                        payload: 0,
                    },
                    other => other,
                };
                let ghost nv = new_value@;
                self.fields.insert(i, Field { name: old_field.name, value: new_value });
                proof {
                    assert(self@ =~= old(self)@.update(i as int, (name@, nv)));
                }
            },
            None => {},
        }
    }
}

impl Clone for HtnState {
    fn clone(&self) -> (r: Self)
        ensures
            r@ == self@,
            r.record_type == self.record_type,
            self.wf() ==> r.wf(),
    {
        let mut fields: Vec<Field> = Vec::new();
        let mut i: usize = 0;
        while i < self.fields.len()
            invariant
                0 <= i <= self.fields@.len(),
                fields@.len() == i,
                forall|j: int| 0 <= j < i ==> (#[trigger] fields@[j]).name == self.fields@[j].name
                    && fields@[j].value@ == self.fields@[j].value@ && (self.fields@[j].value.wf()
                    ==> fields@[j].value.wf()),
            decreases self.fields@.len() - i,
        {
            fields.push(self.fields[i].clone());
            i = i + 1;
        }
        let r = HtnState { record_type: self.record_type.clone(), fields };
        assert(r@ =~= self@);
        r
    }
}

/// An enum value switched to the variant `variant`, which carries no data.
pub open spec fn with_variant(v: Val, variant: Seq<char>) -> Val {
    match v {
        Val::Enum { type_path, type_ident, variants, .. } => Val::Enum {
            type_path,
            type_ident,
            variants,
            variant,
            payload: 0,
        },
        _ => v,
    }
}

/// `x` wrapped into the range of `i32`, as two's complement addition does
/// for a sum of two `i32` values.
pub open spec fn wrap_i32(x: int) -> int {
    if x > 0x7fff_ffff {
        x - 0x1_0000_0000
    } else if x < -0x8000_0000 {
        x + 0x1_0000_0000
    } else {
        x
    }
}

/// `a + b` with two's complement wrap-around.
pub fn wrapping_add_i32(a: i32, b: i32) -> (r: i32)
    ensures
        r == wrap_i32(a + b),
{
    let s: i64 = a as i64 + b as i64;
    if s > 0x7fff_ffff {
        (s - 0x1_0000_0000) as i32
    } else if s < -0x8000_0000 {
        (s + 0x1_0000_0000) as i32
    } else {
        s as i32
    }
}

/// Whether the sign bit of an IEEE-754 bit pattern is set.
pub open spec fn float_sign(double: bool, bits: u64) -> bool {
    if double { bits >= 0x8000_0000_0000_0000 } else { bits >= 0x8000_0000 }
}

/// The bit pattern without its sign bit.
pub open spec fn float_magnitude(double: bool, bits: u64) -> int {
    if double { (bits % 0x8000_0000_0000_0000) as int } else { (bits % 0x8000_0000) as int }
}

/// Whether an IEEE-754 bit pattern is a NaN.
pub open spec fn float_is_nan(double: bool, bits: u64) -> bool {
    float_magnitude(double, bits) > (if double { 0x7ff0_0000_0000_0000int } else { 0x7f80_0000int })
}

/// An integer that orders non-NaN IEEE-754 values as the floating-point
/// comparison does (both zeros map to 0).
pub open spec fn float_key(double: bool, bits: u64) -> int {
    if float_sign(double, bits) { -float_magnitude(double, bits) } else { float_magnitude(double, bits) }
}

/// IEEE-754 equality of two `f32` bit patterns: neither is a NaN and they
/// stand for the same number (the two zeros are equal).
pub open spec fn f32_equal(a: u64, b: u64) -> bool {
    &&& !float_is_nan(false, a)
    &&& !float_is_nan(false, b)
    &&& float_key(false, a) == float_key(false, b)
}

/// IEEE-754 `a > b` (or `a >= b` with `orequals`) of two `f32` bit
/// patterns: false when either is a NaN.
pub open spec fn f32_above(a: u64, b: u64, orequals: bool) -> bool {
    &&& !float_is_nan(false, a)
    &&& !float_is_nan(false, b)
    &&& if orequals { float_key(false, a) >= float_key(false, b) } else { float_key(false, a) > float_key(false, b) }
}

/// Whether two values have the same type.
pub open spec fn same_type(a: Val, b: Val) -> bool {
    match (a, b) {
        (Val::Bool(_), Val::Bool(_)) => true,
        (Val::Int { kind: k1, .. }, Val::Int { kind: k2, .. }) => k1 == k2,
        (Val::Float { double: d1, .. }, Val::Float { double: d2, .. }) => d1 == d2,
        (Val::Enum { type_path: p1, .. }, Val::Enum { type_path: p2, .. }) => p1 == p2,
        (Val::Other { type_path: p1, .. }, Val::Other { type_path: p2, .. }) => p1 == p2,
        _ => false,
    }
}

/// Reflected equality of two values: integers of one kind with the same
/// value, floats by IEEE-754 equality, enums with the same variant and data,
/// other values with the same type and token.
pub open spec fn values_equal(a: Val, b: Val) -> bool {
    match (a, b) {
        (Val::Bool(x), Val::Bool(y)) => x == y,
        (Val::Int { kind: k1, value: v1 }, Val::Int { kind: k2, value: v2 }) => k1 == k2 && v1
            == v2,
        (Val::Float { double: d1, bits: b1 }, Val::Float { double: d2, bits: b2 }) => {
            &&& d1 == d2
            &&& !float_is_nan(d1, b1)
            &&& !float_is_nan(d2, b2)
            &&& float_key(d1, b1) == float_key(d2, b2)
        },
        (Val::Enum { variant: v1, payload: p1, .. }, Val::Enum { variant: v2, payload: p2, .. }) => v1
            == v2 && p1 == p2,
        (Val::Other { type_path: t1, token: x1 }, Val::Other { type_path: t2, token: x2 }) => t1
            == t2 && x1 == x2,
        _ => false,
    }
}

/// Whether the value is a number.
pub open spec fn is_number(v: Val) -> bool {
    v is Int || v is Float
}

/// The key by which numbers are ordered.
pub open spec fn order_key(v: Val) -> int {
    match v {
        Val::Int { value, .. } => value,
        Val::Float { double, bits } => float_key(double, bits),
        _ => 0,
    }
}

/// Whether two values can be ordered: numbers of one type, neither a NaN.
pub open spec fn orderable(a: Val, b: Val) -> bool {
    &&& is_number(a)
    &&& same_type(a, b)
    &&& !(a matches Val::Float { double, bits } && float_is_nan(double, bits))
    &&& !(b matches Val::Float { double, bits } && float_is_nan(double, bits))
}

/// The sign of `x`.
pub open spec fn sign(x: int) -> int {
    if x < 0 { -1 } else if x == 0 { 0 } else { 1 }
}

/// Index of the first registered type named `name`.
pub open spec fn first_type(types: Seq<RegisteredType>, name: Seq<char>) -> Option<int>
    decreases types.len(),
{
    if types.len() == 0 {
        None
    } else if types[0].name@ == name {
        Some(0)
    } else {
        match first_type(types.drop_first(), name) {
            Some(i) => Some(i + 1),
            None => None,
        }
    }
}

/// Whether `name` resolves to a registered type.
pub open spec fn resolves(types: Seq<RegisteredType>, name: Seq<char>) -> bool {
    first_type(types, name) is Some
}

/// Whether `name` resolves to a registered enum type.
pub open spec fn resolves_enum(types: Seq<RegisteredType>, name: Seq<char>) -> bool {
    match first_type(types, name) {
        Some(i) => types[i].is_enum,
        None => false,
    }
}

proof fn lemma_first_type(types: Seq<RegisteredType>, name: Seq<char>, i: int)
    requires
        0 <= i <= types.len(),
        forall|j: int| 0 <= j < i ==> #[trigger] types[j].name@ != name,
        i < types.len() ==> types[i].name@ == name,
    ensures
        first_type(types, name) == (if i < types.len() { Some(i) } else { None::<int> }),
    decreases i,
{
    if types.len() > 0 && i > 0 {
        let rest = types.drop_first();
        assert forall|j: int| 0 <= j < i - 1 implies #[trigger] rest[j].name@ != name by {
            assert(rest[j] == types[j + 1]);
        }
        lemma_first_type(rest, name, i - 1);
    }
}

impl TypeRegistryModel {
    /// Resolves `name` and tells whether it names an enum.
    pub fn lookup(&self, name: &String) -> (r: Option<bool>)
        ensures
            r is Some <==> resolves(self.types@, name@),
            r == Some(true) <==> resolves_enum(self.types@, name@),
    {
        match self.entry(name) {
            Some(t) => Some(t.is_enum),
            None => None,
        }
    }

    /// The registration that `name` resolves to.
    pub fn entry(&self, name: &String) -> (r: Option<&RegisteredType>)
        ensures
            r matches Some(t) ==> first_type(self.types@, name@) matches Some(i) && *t
                == self.types@[i],
            r is None ==> first_type(self.types@, name@) is None,
    {
        let mut i: usize = 0;
        while i < self.types.len()
            invariant
                0 <= i <= self.types@.len(),
                forall|j: int| 0 <= j < i ==> #[trigger] self.types@[j].name@ != name@,
            decreases self.types@.len() - i,
        {
            if self.types[i].name == *name {
                proof {
                    lemma_first_type(self.types@, name@, i as int);
                }
                return Some(&self.types[i]);
            }
            i = i + 1;
        }
        proof {
            lemma_first_type(self.types@, name@, i as int);
        }
        None
    }
}

/// Whether two values have the same type.
pub fn same_type_exec(a: &Value, b: &Value) -> (r: bool)
    ensures
        r == same_type(a@, b@),
{
    match (a, b) {
        (Value::Bool(_), Value::Bool(_)) => true,
        (Value::Int { kind: k1, .. }, Value::Int { kind: k2, .. }) => *k1 == *k2,
        (Value::Float { double: d1, .. }, Value::Float { double: d2, .. }) => *d1 == *d2,
        (Value::Enum { type_path: p1, .. }, Value::Enum { type_path: p2, .. }) => *p1 == *p2,
        (Value::Other { type_path: p1, .. }, Value::Other { type_path: p2, .. }) => *p1 == *p2,
        _ => false,
    }
}

/// Whether an IEEE-754 bit pattern is a NaN.
pub fn float_is_nan_exec(double: bool, bits: u64) -> (r: bool)
    ensures
        r == float_is_nan(double, bits),
{
    if double {
        bits % 0x8000_0000_0000_0000 > 0x7ff0_0000_0000_0000
    } else {
        bits % 0x8000_0000 > 0x7f80_0000
    }
}

/// The ordering key of an IEEE-754 bit pattern (see [`float_key`]).
pub(crate) fn float_key_exec(double: bool, bits: u64) -> (r: i128)
    ensures
        r == float_key(double, bits),
{
    let m: u64 = if double { bits % 0x8000_0000_0000_0000 } else { bits % 0x8000_0000 };
    let s: bool = if double { bits >= 0x8000_0000_0000_0000 } else { bits >= 0x8000_0000 };
    if s { -(m as i128) } else { m as i128 }
}

/// IEEE-754 equality of two `f32` bit patterns.
pub fn f32_equal_exec(a: u64, b: u64) -> (r: bool)
    ensures
        r == f32_equal(a, b),
{
    !float_is_nan_exec(false, a) && !float_is_nan_exec(false, b) && float_key_exec(false, a)
        == float_key_exec(false, b)
}

/// IEEE-754 `a > b` (or `a >= b` with `orequals`) of two `f32` bit
/// patterns.
pub fn f32_above_exec(a: u64, b: u64, orequals: bool) -> (r: bool)
    ensures
        r == f32_above(a, b, orequals),
{
    if float_is_nan_exec(false, a) || float_is_nan_exec(false, b) {
        return false;
    }
    let ka = float_key_exec(false, a);
    let kb = float_key_exec(false, b);
    if orequals { ka >= kb } else { ka > kb }
}

/// Reflected equality of two values.
pub fn values_equal_exec(a: &Value, b: &Value) -> (r: bool)
    requires
        a.wf(),
        b.wf(),
    ensures
        r == values_equal(a@, b@),
{
    match (a, b) {
        (
            Value::Int { kind: k1, negative: n1, magnitude: m1 },
            Value::Int { kind: k2, negative: n2, magnitude: m2 },
        ) => *k1 == *k2 && *n1 == *n2 && *m1 == *m2,
        (Value::Bool(x), Value::Bool(y)) => *x == *y,
        (Value::Float { double: d1, bits: b1 }, Value::Float { double: d2, bits: b2 }) => {
            *d1 == *d2 && !float_is_nan_exec(*d1, *b1) && !float_is_nan_exec(*d2, *b2)
                && float_key_exec(*d1, *b1) == float_key_exec(*d2, *b2)
        },
        (Value::Enum { variant: v1, payload: p1, .. }, Value::Enum { variant: v2, payload: p2, .. }) => {
            *v1 == *v2 && *p1 == *p2
        },
        (Value::Other { type_path: t1, token: x1 }, Value::Other { type_path: t2, token: x2 }) => {
            *t1 == *t2 && *x1 == *x2
        },
        _ => false,
    }
}

/// Whether two values can be ordered.
pub fn orderable_exec(a: &Value, b: &Value) -> (r: bool)
    ensures
        r == orderable(a@, b@),
{
    let number = match a {
        Value::Int { .. } => true,
        Value::Float { .. } => true,
        _ => false,
    };
    let a_nan = match a {
        Value::Float { double, bits } => float_is_nan_exec(*double, *bits),
        _ => false,
    };
    let b_nan = match b {
        Value::Float { double, bits } => float_is_nan_exec(*double, *bits),
        _ => false,
    };
    number && same_type_exec(a, b) && !a_nan && !b_nan
}

/// Compares two orderable values: -1, 0 or 1.
pub fn compare_numbers(a: &Value, b: &Value) -> (r: i8)
    requires
        orderable(a@, b@),
        a.wf(),
        b.wf(),
    ensures
        r == sign(order_key(a@) - order_key(b@)),
{
    match (a, b) {
        (
            Value::Int { negative: n1, magnitude: m1, .. },
            Value::Int { negative: n2, magnitude: m2, .. },
        ) => {
            if *n1 != *n2 {
                if *n1 { -1 } else { 1 }
            } else if *m1 == *m2 {
                0
            } else if (*m1 < *m2) != *n1 {
                -1
            } else {
                1
            }
        },
        (Value::Float { double: d1, bits: b1 }, Value::Float { double: d2, bits: b2 }) => {
            let k1 = float_key_exec(*d1, *b1);
            let k2 = float_key_exec(*d2, *b2);
            if k1 < k2 {
                -1
            } else if k1 == k2 {
                0
            } else {
                1
            }
        },
        _ => 0,
    }
}

} // verus!
