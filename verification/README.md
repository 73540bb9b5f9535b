# bevy_htn

Hierarchical task network (HTN) planning, verified with Verus.

A task network is written in a small text format: compound tasks with
methods that decompose them into subtasks, and primitive tasks with an
operator, preconditions, effects and expected effects over a typed world
state. The planner decomposes the first task depth first, picking for each
compound task the first method whose preconditions hold and backtracking
when a task cannot be planned; the result is a plan of primitive tasks that
a supervisor then carries out one by one.

Layout:

- `src/` is the verified library. `lexer` and `dsl` read the text format,
  `model` holds the world state and the type registry's names,
  `conditions` and `effects` test and change the state, `tasks` holds the
  network and its builders and type checks, `planner` and `plan` plan and
  track plans, `executor` takes the supervisor's decisions, and `checks`
  states what passing the type checks guarantees to the planner.
- `app/` connects the library to Bevy: it reads the state out of reflected
  components, loads `.htn` assets (reading their floating-point literals as
  `f32` values for the parser), works out the sums of `f32` values that an
  increment of an `f32` field needs (the planner asks for each one it
  meets and plans again with it), and runs the supervisor's observers and
  systems.

Floating-point values are held in the library as IEEE-754 bit patterns:
conditions on `f32` fields compare them as IEEE-754 does, and writes of
`f32` literals are plain writes of those bits.
- `tests/` runs the library on concrete networks and states.
