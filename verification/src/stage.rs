//! The stages of the trading pipeline and the plans that say which of them
//! a run goes through: the stages are taken in their fixed order, and a run
//! stops after the first stage whose name is the requested last stage.

use vstd::prelude::*;
use vstd::string::StringSliceAdditionalSpecFns;

verus! {

/// Whether two strings are equal, compared byte by byte.
pub fn str_eq(a: &str, b: &str) -> (r: bool)
    ensures
        r == (a@ == b@),
{
    let x = a.as_bytes();
    let y = b.as_bytes();
    proof {
        vstd::utf8::encode_utf8_decode_utf8(a@);
        vstd::utf8::encode_utf8_decode_utf8(b@);
    }
    if x.len() != y.len() {
        return false;
    }
    let n: usize = x.len();
    let mut i: usize = 0;
    while i < n
        invariant
            i <= n,
            n == x@.len(),
            n == y@.len(),
            x@ == a.spec_bytes(),
            y@ == b.spec_bytes(),
            forall|j: int| 0 <= j < i ==> x@[j] == y@[j],
        decreases n - i,
    {
        if x[i] != y[i] {
            return false;
        }
        i = i + 1;
    }
    assert(x@ =~= y@);
    true
}

/// A stage of the pipeline.
#[derive(Clone, Copy, PartialEq, Eq, Debug, Structural)]
pub enum Stage {
    Indications,
    SignalsTrain,
    Signals,
    UtilsState,
    OrderCreators,
    OrderFilters,
    OrdersCollectors,
}

/// The name by which a caller asks a run to stop after a stage.
pub open spec fn stage_name(s: Stage) -> Seq<char> {
    match s {
        Stage::Indications => "indications"@,
        Stage::SignalsTrain => "signals_train"@,
        Stage::Signals => "signals"@,
        Stage::UtilsState => "utils_state"@,
        Stage::OrderCreators => "order_creators"@,
        Stage::OrderFilters => "order_filters"@,
        Stage::OrdersCollectors => "orders_collectors"@,
    }
}

impl Stage {
    /// The name of the stage.
    pub fn name(&self) -> (s: &'static str)
        ensures
            s@ == stage_name(*self),
            *self == Stage::Indications ==> s@ == "indications"@,
            *self == Stage::SignalsTrain ==> s@ == "signals_train"@,
            *self == Stage::Signals ==> s@ == "signals"@,
            *self == Stage::UtilsState ==> s@ == "utils_state"@,
            *self == Stage::OrderCreators ==> s@ == "order_creators"@,
            *self == Stage::OrderFilters ==> s@ == "order_filters"@,
            *self == Stage::OrdersCollectors ==> s@ == "orders_collectors"@,
    {
        match self {
            Stage::Indications => "indications",
            Stage::SignalsTrain => "signals_train",
            Stage::Signals => "signals",
            Stage::UtilsState => "utils_state",
            Stage::OrderCreators => "order_creators",
            Stage::OrderFilters => "order_filters",
            Stage::OrdersCollectors => "orders_collectors",
        }
    }
}

/// `i` is the first position in `stages` of a stage named `end`.
pub open spec fn stops_at(stages: Seq<Stage>, end: Seq<char>, i: int) -> bool {
    &&& 0 <= i < stages.len()
    &&& stage_name(stages[i]) == end
    &&& forall|j: int| 0 <= j < i ==> stage_name(#[trigger] stages[j]) != end
}

/// How many of `stages` a run goes through when asked to stop after the
/// stage named `end`: up to and including the first stage of that name, or
/// all of them when none has it.
pub open spec fn stage_count(stages: Seq<Stage>, end: Seq<char>) -> nat {
    if exists|i: int| stops_at(stages, end, i) {
        ((choose|i: int| stops_at(stages, end, i)) + 1) as nat
    } else {
        stages.len()
    }
}

/// The stages a run goes through, in order, when the stage list `stages` is
/// paired with `n_funcs` stage functions (a run never goes past either) and
/// asked to stop after the stage named `end`.
pub open spec fn planned(stages: Seq<Stage>, n_funcs: nat, end: Seq<char>) -> Seq<Stage> {
    let paired = if n_funcs < stages.len() { stages.take(n_funcs as int) } else { stages };
    paired.take(stage_count(paired, end) as int)
}

/// The stages a run goes through, in order: those of `stages` that have a
/// stage function among the first `n_funcs`, up to and including the first
/// one named `stage_end`.
pub fn plan(stages: &[Stage], n_funcs: usize, stage_end: &str) -> (p: Vec<Stage>)
    ensures
        p@ == planned(stages@, n_funcs as nat, stage_end@),
{
    let m: usize = if n_funcs < stages.len() { n_funcs } else { stages.len() };
    let ghost paired = if n_funcs < stages@.len() { stages@.take(n_funcs as int) } else { stages@ };
    assert(paired =~= stages@.take(m as int));
    let mut p: Vec<Stage> = Vec::new();
    let mut i: usize = 0;
    while i < m
        invariant
            i <= m,
            m == paired.len(),
            m <= stages@.len(),
            paired == stages@.take(m as int),
            paired == (if n_funcs < stages@.len() { stages@.take(n_funcs as int) } else { stages@ }),
            p@ == paired.take(i as int),
            forall|j: int| 0 <= j < i ==> stage_name(#[trigger] paired[j]) != stage_end@,
        decreases m - i,
    {
        let s = stages[i];
        p.push(s);
        assert(p@ =~= paired.take(i + 1));
        if str_eq(s.name(), stage_end) {
            assert(stops_at(paired, stage_end@, i as int));
            proof {
                let c = choose|k: int| stops_at(paired, stage_end@, k);
                if c < i {
                    assert(stage_name(paired[c]) != stage_end@);
                }
                if c > i {
                    assert(stage_name(paired[i as int]) != stage_end@);
                }
                assert(c == i);
                assert(stage_count(paired, stage_end@) == i + 1);
                assert(planned(stages@, n_funcs as nat, stage_end@) == paired.take(i + 1));
            }
            return p;
        }
        i = i + 1;
    }
    assert(!exists|k: int| stops_at(paired, stage_end@, k));
    assert(paired.take(m as int) =~= paired);
    p
}

/// The stages that initialisation goes through, in order.
pub open spec fn stage_order() -> Seq<Stage> {
    seq![
        Stage::Indications,
        Stage::SignalsTrain,
        Stage::Signals,
        Stage::UtilsState,
        Stage::OrderFilters,
        Stage::OrdersCollectors,
    ]
}

/// The stages that a step goes through, in order.
pub open spec fn step_order() -> Seq<Stage> {
    seq![
        Stage::Indications,
        Stage::SignalsTrain,
        Stage::Signals,
        Stage::UtilsState,
        Stage::OrderCreators,
        Stage::OrderFilters,
    ]
}

/// The stages that executing a step goes through, in order.
pub open spec fn execute_order() -> Seq<Stage> {
    seq![Stage::OrdersCollectors]
}

/// The stages that initialisation goes through, in order.
pub fn stages() -> (v: Vec<Stage>)
    ensures
        v@ == stage_order(),
        v@ == seq![
            Stage::Indications,
            Stage::SignalsTrain,
            Stage::Signals,
            Stage::UtilsState,
            Stage::OrderFilters,
            Stage::OrdersCollectors,
        ],
{
    let v = vec![
        Stage::Indications,
        Stage::SignalsTrain,
        Stage::Signals,
        Stage::UtilsState,
        Stage::OrderFilters,
        Stage::OrdersCollectors,
    ];
    assert(v@ =~= stage_order());
    v
}

/// The stages that a step goes through, in order.
pub fn stages_step() -> (v: Vec<Stage>)
    ensures
        v@ == step_order(),
        v@ == seq![
            Stage::Indications,
            Stage::SignalsTrain,
            Stage::Signals,
            Stage::UtilsState,
            Stage::OrderCreators,
            Stage::OrderFilters,
        ],
{
    let v = vec![
        Stage::Indications,
        Stage::SignalsTrain,
        Stage::Signals,
        Stage::UtilsState,
        Stage::OrderCreators,
        Stage::OrderFilters,
    ];
    assert(v@ =~= step_order());
    v
}

/// The stages that executing a step goes through, in order.
pub fn stages_execute() -> (v: Vec<Stage>)
    ensures
        v@ == execute_order(),
        v@ == seq![Stage::OrdersCollectors],
{
    let v = vec![Stage::OrdersCollectors];
    assert(v@ =~= execute_order());
    v
}

/// The stages whose empty gateways are made, in order, when initialisation
/// is asked to stop after the stage named `stage_end`; there is a stage
/// function for each of the six initialisation stages.
pub fn init_empty_plan(stage_end: &str) -> (p: Vec<Stage>)
    ensures
        p@ == planned(stage_order(), 6, stage_end@),
{
    let s = stages();
    plan(s.as_slice(), 6, stage_end)
}

/// The stages whose gateways are filled from the buffer, in order, when
/// initialisation is asked to stop after the stage named `stage_end`; only
/// the first three stages have such a function.
pub fn init_bf_plan(stage_end: &str) -> (p: Vec<Stage>)
    ensures
        p@ == planned(stage_order(), 3, stage_end@),
{
    let s = stages();
    plan(s.as_slice(), 3, stage_end)
}

/// The stages that a step goes through, in order, when asked to stop after
/// the stage named `stage_end`.
pub fn step_plan(stage_end: &str) -> (p: Vec<Stage>)
    ensures
        p@ == planned(step_order(), 6, stage_end@),
{
    let s = stages_step();
    plan(s.as_slice(), 6, stage_end)
}

/// The stages that executing a step goes through, in order, when asked to
/// stop after the stage named `stage_end`.
pub fn execute_plan(stage_end: &str) -> (p: Vec<Stage>)
    ensures
        p@ == planned(execute_order(), 1, stage_end@),
{
    let s = stages_execute();
    plan(s.as_slice(), 1, stage_end)
}

/// The stages paired with the first `n_funcs` stage functions.
pub open spec fn paired(stages: Seq<Stage>, n_funcs: nat) -> Seq<Stage> {
    if n_funcs < stages.len() { stages.take(n_funcs as int) } else { stages }
}

/// A run goes through a prefix of the paired stages in their order; it goes
/// through at least the first one; it stops only after a stage named as asked,
/// and never passes one; when no paired stage has that name it goes through
/// all of them.
pub proof fn law_plan(stages: Seq<Stage>, n_funcs: nat, end: Seq<char>)
    ensures
        planned(stages, n_funcs, end).len() <= paired(stages, n_funcs).len(),
        planned(stages, n_funcs, end) == paired(stages, n_funcs).take(
            planned(stages, n_funcs, end).len() as int,
        ),
        paired(stages, n_funcs).len() > 0 ==> planned(stages, n_funcs, end).len() > 0,
        forall|j: int|
            0 <= j < planned(stages, n_funcs, end).len() - 1 ==> stage_name(
                #[trigger] planned(stages, n_funcs, end)[j],
            ) != end,
        planned(stages, n_funcs, end).len() < paired(stages, n_funcs).len() ==> stage_name(
            planned(stages, n_funcs, end).last(),
        ) == end,
        (forall|j: int|
            0 <= j < paired(stages, n_funcs).len() ==> stage_name(
                #[trigger] paired(stages, n_funcs)[j],
            ) != end) ==> planned(stages, n_funcs, end) == paired(stages, n_funcs),
{
    let q = paired(stages, n_funcs);
    let p = planned(stages, n_funcs, end);
    if exists|i: int| stops_at(q, end, i) {
        let c = choose|i: int| stops_at(q, end, i);
        assert(p =~= q.take(c + 1));
        assert forall|j: int| 0 <= j < p.len() - 1 implies stage_name(#[trigger] p[j]) != end by {
            assert(p[j] == q[j]);
        }
    } else {
        assert(p =~= q);
        assert(q.take(q.len() as int) =~= q);
        assert forall|j: int| 0 <= j < q.len() implies stage_name(#[trigger] q[j]) != end by {
            if stage_name(q[j]) == end {
                lemma_first_match(q, end, j);
            }
        }
    }
}

/// Where some stage is named `end`, a first one is.
proof fn lemma_first_match(q: Seq<Stage>, end: Seq<char>, j: int)
    requires
        0 <= j < q.len(),
        stage_name(q[j]) == end,
    ensures
        exists|i: int| stops_at(q, end, i),
    decreases j,
{
    if forall|l: int| 0 <= l < j ==> stage_name(#[trigger] q[l]) != end {
        assert(stops_at(q, end, j));
    } else {
        let l = choose|l: int| 0 <= l < j && stage_name(#[trigger] q[l]) == end;
        lemma_first_match(q, end, l);
    }
}

/// The number of rows the indicators, the trained signals and the signals of
/// a pipeline need together, given what each of them needs.
pub fn window_total(indicators: usize, signals_train: usize, signals: usize) -> (w: usize)
    requires
        indicators + signals_train + signals <= usize::MAX,
    ensures
        w == indicators + signals_train + signals,
{
    indicators + signals_train + signals
}

/// Each stage is named after its part of the pipeline settings.
pub proof fn law_stage_names()
    ensures
        stage_name(Stage::Indications) == "indications"@,
        stage_name(Stage::SignalsTrain) == "signals_train"@,
        stage_name(Stage::Signals) == "signals"@,
        stage_name(Stage::UtilsState) == "utils_state"@,
        stage_name(Stage::OrderCreators) == "order_creators"@,
        stage_name(Stage::OrderFilters) == "order_filters"@,
        stage_name(Stage::OrdersCollectors) == "orders_collectors"@,
{
}

/// Two different stages never share a name, so a name picks out one stage.
pub proof fn law_stage_names_distinct(a: Stage, b: Stage)
    requires
        a != b,
    ensures
        stage_name(a) != stage_name(b),
{
    reveal_strlit("indications");
    reveal_strlit("signals_train");
    reveal_strlit("signals");
    reveal_strlit("utils_state");
    reveal_strlit("order_creators");
    reveal_strlit("order_filters");
    reveal_strlit("orders_collectors");
    if stage_name(a) == stage_name(b) {
        match a {
            Stage::Indications => assert(stage_name(a)[0] != stage_name(b)[0] || stage_name(a).len() != stage_name(b).len()),
            Stage::SignalsTrain => assert(stage_name(a)[7] != stage_name(b)[7] || stage_name(a).len() != stage_name(b).len()),
            Stage::Signals => assert(stage_name(a).len() != stage_name(b).len() || stage_name(a)[0] != stage_name(b)[0]),
            Stage::UtilsState => assert(stage_name(a)[0] != stage_name(b)[0] || stage_name(a).len() != stage_name(b).len()),
            Stage::OrderCreators => assert(stage_name(a)[6] != stage_name(b)[6] || stage_name(a).len() != stage_name(b).len()),
            Stage::OrderFilters => assert(stage_name(a)[6] != stage_name(b)[6] || stage_name(a).len() != stage_name(b).len()),
            Stage::OrdersCollectors => assert(stage_name(a)[5] != stage_name(b)[5] || stage_name(a).len() != stage_name(b).len()),
        }
    }
}

/// Initialisation goes through six stages, in this order: indicators,
/// trained signals, signals, utility state, order filters and, last, the
/// orders collectors.
pub proof fn law_stage_order()
    ensures
        stage_order() == seq![
            Stage::Indications,
            Stage::SignalsTrain,
            Stage::Signals,
            Stage::UtilsState,
            Stage::OrderFilters,
            Stage::OrdersCollectors,
        ],
{
}

/// A step goes through six stages, in this order: indicators, trained
/// signals, signals, utility state, then the order creators and after them
/// the order filters, which filter the orders this step created.
pub proof fn law_step_order()
    ensures
        step_order() == seq![
            Stage::Indications,
            Stage::SignalsTrain,
            Stage::Signals,
            Stage::UtilsState,
            Stage::OrderCreators,
            Stage::OrderFilters,
        ],
{
}

/// Executing a step goes through the orders collectors alone.
pub proof fn law_execute_order()
    ensures
        execute_order() == seq![Stage::OrdersCollectors],
{
}

/// Where `i` is the first stage named `end`, a run goes through `i + 1` stages.
proof fn lemma_count_at(q: Seq<Stage>, end: Seq<char>, i: int)
    requires
        stops_at(q, end, i),
    ensures
        stage_count(q, end) == i + 1,
{
    let c = choose|k: int| stops_at(q, end, k);
    if c < i {
        assert(stage_name(q[c]) != end);
    }
    if c > i {
        assert(stage_name(q[i]) != end);
    }
}

/// When the paired stages are all different, a run asked to stop after the
/// name of one of them goes through exactly the stages up to and including
/// that one.
pub proof fn law_plan_stops_after_named(stages: Seq<Stage>, n_funcs: nat, i: int)
    requires
        0 <= i < paired(stages, n_funcs).len(),
        forall|j: int, k: int|
            0 <= j < k < paired(stages, n_funcs).len() ==> #[trigger] paired(stages, n_funcs)[j]
                != #[trigger] paired(stages, n_funcs)[k],
    ensures
        planned(stages, n_funcs, stage_name(paired(stages, n_funcs)[i])) == paired(
            stages,
            n_funcs,
        ).take(i + 1),
{
    let q = paired(stages, n_funcs);
    let end = stage_name(q[i]);
    assert forall|j: int| 0 <= j < i implies stage_name(#[trigger] q[j]) != end by {
        law_stage_names_distinct(q[j], q[i]);
    }
    assert(stops_at(q, end, i));
    lemma_count_at(q, end, i);
}

/// Initialisation asked to stop after the order filters goes through the
/// first five stages and leaves the orders collectors alone.
pub proof fn law_init_plan_stops_after_order_filters()
    ensures
        planned(stage_order(), 6, "order_filters"@) == seq![
            Stage::Indications,
            Stage::SignalsTrain,
            Stage::Signals,
            Stage::UtilsState,
            Stage::OrderFilters,
        ],
{
    law_stage_names();
    assert forall|j: int, k: int| 0 <= j < k < paired(stage_order(), 6).len() implies
        #[trigger] paired(stage_order(), 6)[j] != #[trigger] paired(stage_order(), 6)[k] by {
    }
    law_plan_stops_after_named(stage_order(), 6, 4);
    assert(paired(stage_order(), 6).take(5) =~= seq![
        Stage::Indications,
        Stage::SignalsTrain,
        Stage::Signals,
        Stage::UtilsState,
        Stage::OrderFilters,
    ]);
}

/// A step asked to stop after the order creators goes through the first
/// five stages and does not filter orders.
pub proof fn law_step_plan_stops_after_order_creators()
    ensures
        planned(step_order(), 6, "order_creators"@) == seq![
            Stage::Indications,
            Stage::SignalsTrain,
            Stage::Signals,
            Stage::UtilsState,
            Stage::OrderCreators,
        ],
{
    law_stage_names();
    assert forall|j: int, k: int| 0 <= j < k < paired(step_order(), 6).len() implies
        #[trigger] paired(step_order(), 6)[j] != #[trigger] paired(step_order(), 6)[k] by {
    }
    law_plan_stops_after_named(step_order(), 6, 4);
    assert(paired(step_order(), 6).take(5) =~= seq![
        Stage::Indications,
        Stage::SignalsTrain,
        Stage::Signals,
        Stage::UtilsState,
        Stage::OrderCreators,
    ]);
}

/// Asked to stop after a name that no stage has (such as the empty name),
/// initialisation goes through all six stages and ends with the orders
/// collectors.
pub proof fn law_init_plan_without_stop(end: Seq<char>)
    requires
        forall|s: Stage| stage_name(s) != end,
    ensures
        planned(stage_order(), 6, end) == seq![
            Stage::Indications,
            Stage::SignalsTrain,
            Stage::Signals,
            Stage::UtilsState,
            Stage::OrderFilters,
            Stage::OrdersCollectors,
        ],
{
    law_plan(stage_order(), 6, end);
    assert(paired(stage_order(), 6) =~= stage_order());
    assert forall|j: int| 0 <= j < paired(stage_order(), 6).len() implies stage_name(
        #[trigger] paired(stage_order(), 6)[j],
    ) != end by {
    }
}

/// Asked to stop after a name that no stage has (such as the empty name), a
/// step goes through all six stages, the order filters last.
pub proof fn law_step_plan_without_stop(end: Seq<char>)
    requires
        forall|s: Stage| stage_name(s) != end,
    ensures
        planned(step_order(), 6, end) == seq![
            Stage::Indications,
            Stage::SignalsTrain,
            Stage::Signals,
            Stage::UtilsState,
            Stage::OrderCreators,
            Stage::OrderFilters,
        ],
{
    law_plan(step_order(), 6, end);
    assert(paired(step_order(), 6) =~= step_order());
    assert forall|j: int| 0 <= j < paired(step_order(), 6).len() implies stage_name(
        #[trigger] paired(step_order(), 6)[j],
    ) != end by {
    }
}

/// The empty name is no stage's name.
pub proof fn law_empty_name_is_no_stage(s: Stage)
    ensures
        stage_name(s) != ""@,
{
    reveal_strlit("");
    reveal_strlit("indications");
    reveal_strlit("signals_train");
    reveal_strlit("signals");
    reveal_strlit("utils_state");
    reveal_strlit("order_creators");
    reveal_strlit("order_filters");
    reveal_strlit("orders_collectors");
    assert(""@.len() == 0);
    match s {
        Stage::Indications => assert("indications"@.len() > 0),
        Stage::SignalsTrain => assert("signals_train"@.len() > 0),
        Stage::Signals => assert("signals"@.len() > 0),
        Stage::UtilsState => assert("utils_state"@.len() > 0),
        Stage::OrderCreators => assert("order_creators"@.len() > 0),
        Stage::OrderFilters => assert("order_filters"@.len() > 0),
        Stage::OrdersCollectors => assert("orders_collectors"@.len() > 0),
    }
}

/// Whatever a step is asked to stop after, when it filters orders it has
/// created the orders of this step before.
pub proof fn law_step_filters_after_creators(end: Seq<char>)
    ensures
        forall|i: int|
            0 <= i < planned(step_order(), 6, end).len() && #[trigger] planned(step_order(), 6, end)[i]
                == Stage::OrderFilters ==> exists|j: int|
                0 <= j < i && #[trigger] planned(step_order(), 6, end)[j] == Stage::OrderCreators,
{
    law_plan(step_order(), 6, end);
    let p = planned(step_order(), 6, end);
    assert(paired(step_order(), 6) =~= step_order());
    assert forall|i: int|
        0 <= i < p.len() && #[trigger] p[i] == Stage::OrderFilters implies exists|j: int|
        0 <= j < i && #[trigger] p[j] == Stage::OrderCreators by {
        assert(p[i] == step_order()[i]);
        assert(i == 5);
        assert(p[4] == Stage::OrderCreators);
    }
}

} // verus!
