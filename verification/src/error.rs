use vstd::prelude::*;
use crate::text::{debug_list, debug_list_of, join, text};

verus! {

/// What can go wrong while reading a task network description.
#[derive(Debug, Clone, PartialEq)]
pub enum HtnErr {
    Condition { syntax: String, details: String },
    Effect { syntax: String, details: String },
    Float { syntax: String, details: String },
    Int { syntax: String, details: String },
    Enum { syntax: String, details: String },
    Bool { syntax: String, details: String },
    Operator { name: String, params: Vec<String>, details: String },
    Schema { details: String },
    ParserError { details: String },
}

/// The mathematical model of an [`HtnErr`]: the same shape, with texts as
/// character sequences.
pub enum ErrV {
    Condition { syntax: Seq<char>, details: Seq<char> },
    Effect { syntax: Seq<char>, details: Seq<char> },
    Float { syntax: Seq<char>, details: Seq<char> },
    Int { syntax: Seq<char>, details: Seq<char> },
    Enum { syntax: Seq<char>, details: Seq<char> },
    Bool { syntax: Seq<char>, details: Seq<char> },
    Operator { name: Seq<char>, params: Seq<Seq<char>>, details: Seq<char> },
    Schema { details: Seq<char> },
    ParserError { details: Seq<char> },
}

impl View for HtnErr {
    type V = ErrV;

    open spec fn view(&self) -> ErrV {
        match *self {
            HtnErr::Condition { syntax, details } => ErrV::Condition {
                syntax: syntax@,
                details: details@,
            },
            HtnErr::Effect { syntax, details } => ErrV::Effect { syntax: syntax@, details: details@ },
            HtnErr::Float { syntax, details } => ErrV::Float { syntax: syntax@, details: details@ },
            HtnErr::Int { syntax, details } => ErrV::Int { syntax: syntax@, details: details@ },
            HtnErr::Enum { syntax, details } => ErrV::Enum { syntax: syntax@, details: details@ },
            HtnErr::Bool { syntax, details } => ErrV::Bool { syntax: syntax@, details: details@ },
            HtnErr::Operator { name, params, details } => ErrV::Operator {
                name: name@,
                params: params@.map_values(|p: String| p@),
                details: details@,
            },
            HtnErr::Schema { details } => ErrV::Schema { details: details@ },
            HtnErr::ParserError { details } => ErrV::ParserError { details: details@ },
        }
    }
}

/// "Invalid KIND in statement `SYNTAX`: DETAILS", the message of an error
/// in one statement.
pub open spec fn statement_msg(kind: Seq<char>, syntax: Seq<char>, details: Seq<char>) -> Seq<char> {
    "Invalid "@ + kind + " in statement `"@ + syntax + "`: "@ + details
}

impl HtnErr {
    /// The message that describes the error.
    pub open spec fn message_of(self) -> Seq<char> {
        match self {
            HtnErr::Condition { syntax, details } => statement_msg("condition"@, syntax@, details@),
            HtnErr::Effect { syntax, details } => statement_msg("effect"@, syntax@, details@),
            HtnErr::Float { syntax, details } => statement_msg("float"@, syntax@, details@),
            HtnErr::Int { syntax, details } => statement_msg("integer"@, syntax@, details@),
            HtnErr::Enum { syntax, details } => statement_msg("enum"@, syntax@, details@),
            HtnErr::Bool { syntax, details } => statement_msg("boolean"@, syntax@, details@),
            HtnErr::Operator { name, params, details } => "Invalid operator `"@ + name@ + "` ("@
                + debug_list(params@.map_values(|p: String| p@)) + "): "@ + details@,
            HtnErr::Schema { details } => "Schema error: "@ + details@,
            HtnErr::ParserError { details } => "HTN parsing error: "@ + details@,
        }
    }

    /// The message that describes the error.
    pub fn to_string(&self) -> (r: String)
        ensures
            r@ == self.message_of(),
    {
        match self {
            HtnErr::Condition { syntax, details } => statement_message("condition", syntax, details),
            HtnErr::Effect { syntax, details } => statement_message("effect", syntax, details),
            HtnErr::Float { syntax, details } => statement_message("float", syntax, details),
            HtnErr::Int { syntax, details } => statement_message("integer", syntax, details),
            HtnErr::Enum { syntax, details } => statement_message("enum", syntax, details),
            HtnErr::Bool { syntax, details } => statement_message("boolean", syntax, details),
            HtnErr::Operator { name, params, details } => {
                let m = join(text("Invalid operator `"), name.as_str());
                let m = join(m, "` (");
                let list = debug_list_of(params);
                let m = join(m, list.as_str());
                let m = join(m, "): ");
                join(m, details.as_str())
            },
            HtnErr::Schema { details } => join(text("Schema error: "), details.as_str()),
            HtnErr::ParserError { details } => join(text("HTN parsing error: "), details.as_str()),
        }
    }
}

fn statement_message(kind: &str, syntax: &String, details: &String) -> (r: String)
    ensures
        r@ == statement_msg(kind@, syntax@, details@),
{
    let m = join(text("Invalid "), kind);
    let m = join(m, " in statement `");
    let m = join(m, syntax.as_str());
    let m = join(m, "`: ");
    join(m, details.as_str())
}

} // verus!
