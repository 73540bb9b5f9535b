//! The items most users need, in one place.
pub use crate::conditions::HtnCondition;
pub use crate::dsl::{float_literals, parse_htn, FloatReading};
pub use crate::effects::{Effect, FloatSum};
pub use crate::error::HtnErr;
pub use crate::executor::HtnTaskEvent;
pub use crate::model::{Field, HtnState, IntKind, RegisteredType, TypeRegistryModel, Value, VariantInfo};
pub use crate::plan::{Plan, PlannedTask, PlannedTaskId, TaskStatus};
pub use crate::planner::{HtnPlanner, PlanOutcome};
pub use crate::tasks::{
    CompoundTask, CompoundTaskBuilder, HtnSchema, Method, MethodBuilder, Operator, PrimitiveTask,
    PrimitiveTaskBuilder, Task, HTNBuilder, HTN,
};
