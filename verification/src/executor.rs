//! The fan-out of a plan over its targets.
//!
//! Every condition of the plan is listed in every target, conditions in
//! plan order and, within one condition, targets in their own order. This
//! module decides which listing comes next and what becomes of its answer;
//! the caller performs the listing.

use crate::api_builder::{ApiBuilder, ApiBuilderView};
use crate::kind::ResourceType;
use crate::parser::ApiQueries;
use crate::planner::{plan_view, texts, Connective, Query, QueryView};
use crate::printer::{grid, joined, PrintItemView, Printer, PrinterView};
use vstd::prelude::*;

verus! {

/// The field selector of a condition: `field1.field2=value`.
pub open spec fn selector(q: QueryView) -> Seq<char> {
    q.field1 + seq!['.'] + q.field2 + seq!['='] + q.eq
}

/// Renders the field selector of a condition.
pub fn field_selector(q: &Query) -> (r: String)
    ensures
        r@ == selector(q@),
{
    proof {
        reveal_strlit(".");
        reveal_strlit("=");
        assert("."@ =~= seq!['.']);
        assert("="@ =~= seq!['=']);
    }
    let mut out = q.field1.clone();
    out.append(".");
    out.append(q.field2.as_str());
    out.append("=");
    out.append(q.eq.as_str());
    out
}

/// The pairs of one context with each namespace, in the order of the
/// namespaces.
pub open spec fn pairs_of(ctx: Seq<char>, namespaces: Seq<Seq<char>>) -> Seq<
    (Seq<char>, Seq<char>),
> {
    Seq::new(namespaces.len(), |j: int| (ctx, namespaces[j]))
}

/// Every pair of a context and a namespace: the contexts in order, and for
/// each of them the namespaces in order.
pub open spec fn product(contexts: Seq<Seq<char>>, namespaces: Seq<Seq<char>>) -> Seq<
    (Seq<char>, Seq<char>),
>
    decreases contexts.len(),
{
    if contexts.len() == 0 {
        Seq::empty()
    } else {
        product(contexts.drop_last(), namespaces) + pairs_of(contexts.last(), namespaces)
    }
}

/// The target that lists the given conditions in `pair.1` of `pair.0`.
pub open spec fn target_of(pair: (Seq<char>, Seq<char>), queries: Seq<QueryView>) -> ApiBuilderView {
    ApiBuilderView { context: Some(pair.0), namespace: Some(pair.1), queries: Some(queries) }
}

/// The views of a sequence of targets.
pub open spec fn target_views(v: Seq<ApiBuilder>) -> Seq<ApiBuilderView> {
    Seq::new(v.len(), |i: int| v[i]@)
}

/// The product has one pair for each context and namespace.
pub proof fn lemma_product_len(contexts: Seq<Seq<char>>, namespaces: Seq<Seq<char>>)
    ensures
        product(contexts, namespaces).len() == contexts.len() * namespaces.len(),
    decreases contexts.len(),
{
    let n = namespaces.len() as int;
    if contexts.len() > 0 {
        let init = contexts.drop_last();
        lemma_product_len(init, namespaces);
        let m = init.len() as int;
        assert((m + 1) * n == m * n + n) by (nonlinear_arith);
    } else {
        assert(0 * n == 0) by (nonlinear_arith);
    }
}

/// The pair of the `i`-th context and the `j`-th namespace stands at place
/// `i * N + j` of the product, `N` being the number of namespaces.
pub proof fn lemma_product_at(
    contexts: Seq<Seq<char>>,
    namespaces: Seq<Seq<char>>,
    i: int,
    j: int,
)
    requires
        0 <= i < contexts.len(),
        0 <= j < namespaces.len(),
    ensures
        0 <= i * namespaces.len() + j < product(contexts, namespaces).len(),
        product(contexts, namespaces)[i * namespaces.len() + j] == (contexts[i], namespaces[j]),
    decreases contexts.len(),
{
    let n = namespaces.len() as int;
    let init = contexts.drop_last();
    let m = init.len() as int;
    lemma_product_len(init, namespaces);
    lemma_product_len(contexts, namespaces);
    assert(0 <= i * n) by (nonlinear_arith)
        requires
            0 <= i,
            0 <= n,
    ;
    if i < m {
        lemma_product_at(init, namespaces, i, j);
    } else {
        assert(i * n == m * n);
        assert(pairs_of(contexts.last(), namespaces)[j] == (contexts[i], namespaces[j]));
    }
}

/// Builds one target for every pair of a context and a namespace, the
/// contexts outermost.
pub fn targets<'a>(contexts: &[String], namespaces: &[String], queries: &'a [Query]) -> (r: Vec<
    ApiBuilder<'a>,
>)
    ensures
        target_views(r@) == product(texts(contexts@), texts(namespaces@)).map_values(
            |p: (Seq<char>, Seq<char>)| target_of(p, plan_view(queries@)),
        ),
{
    let ghost f = |p: (Seq<char>, Seq<char>)| target_of(p, plan_view(queries@));
    let ghost cs = texts(contexts@);
    let ghost ns = texts(namespaces@);
    let mut apis: Vec<ApiBuilder<'a>> = Vec::new();
    let mut i: usize = 0;
    proof {
        assert(target_views(apis@) =~= product(cs.take(0), ns).map_values(f));
    }
    while i < contexts.len()
        invariant
            i <= contexts.len(),
            cs == texts(contexts@),
            ns == texts(namespaces@),
            f == |p: (Seq<char>, Seq<char>)| target_of(p, plan_view(queries@)),
            target_views(apis@) == product(cs.take(i as int), ns).map_values(f),
        decreases contexts.len() - i,
    {
        let mut j: usize = 0;
        let ghost outer = apis@;
        proof {
            assert(cs.take(i + 1).drop_last() =~= cs.take(i as int));
            assert(cs.take(i + 1).last() == contexts@[i as int]@);
            assert(target_views(apis@) =~= target_views(outer) + pairs_of(
                contexts@[i as int]@,
                ns,
            ).take(0).map_values(f));
        }
        while j < namespaces.len()
            invariant
                i < contexts.len(),
                j <= namespaces.len(),
                ns == texts(namespaces@),
                f == |p: (Seq<char>, Seq<char>)| target_of(p, plan_view(queries@)),
                target_views(apis@) == target_views(outer) + pairs_of(
                    contexts@[i as int]@,
                    ns,
                ).take(j as int).map_values(f),
            decreases namespaces.len() - j,
        {
            let ghost inner = apis@;
            let api = ApiBuilder::builder().context(contexts[i].clone()).namespace(
                namespaces[j].clone(),
            ).queries(queries);
            apis.push(api);
            proof {
                let row = pairs_of(contexts@[i as int]@, ns);
                assert(row.take(j + 1) =~= row.take(j as int).push(row[j as int]));
                assert(api@ == f(row[j as int]));
                assert(target_views(apis@) =~= target_views(inner).push(api@));
                assert(target_views(apis@) =~= target_views(outer) + row.take(j + 1).map_values(f));
            }
            j += 1;
        }
        proof {
            let row = pairs_of(contexts@[i as int]@, ns);
            assert(row.take(j as int) =~= row);
            assert(product(cs.take(i + 1), ns) == product(cs.take(i as int), ns) + row);
            assert(target_views(apis@) =~= product(cs.take(i + 1), ns).map_values(f));
        }
        i += 1;
    }
    proof {
        assert(cs.take(i as int) =~= cs);
    }
    apis
}

/// Why the credentials do not serve a statement.
#[derive(Debug, Clone, Copy, PartialEq, Eq, Structural)]
pub enum CredentialError {
    /// The context at this place of the source list is not a known one.
    UnknownContext(usize),
}

/// Whether `name` is among `known`.
pub fn is_known(known: &[String], name: &String) -> (r: bool)
    ensures
        r == texts(known@).contains(name@),
{
    let mut i: usize = 0;
    while i < known.len()
        invariant
            i <= known.len(),
            forall|j: int| 0 <= j < i ==> texts(known@)[j] != name@,
        decreases known.len() - i,
    {
        if known[i] == *name {
            assert(texts(known@)[i as int] == name@);
            return true;
        }
        i += 1;
    }
    false
}

/// Checks that every context of a statement is a known one; the first that
/// is not decides the error.
pub fn validate_contexts(known: &[String], contexts: &[String]) -> (r: Result<(), CredentialError>)
    ensures
        match r {
            Ok(_) => forall|i: int|
                0 <= i < contexts@.len() ==> texts(known@).contains(#[trigger] contexts@[i]@),
            Err(CredentialError::UnknownContext(k)) => {
                &&& k < contexts@.len()
                &&& !texts(known@).contains(contexts@[k as int]@)
                &&& forall|i: int|
                    0 <= i < k ==> texts(known@).contains(#[trigger] contexts@[i]@)
            },
        },
{
    let mut i: usize = 0;
    while i < contexts.len()
        invariant
            i <= contexts.len(),
            forall|j: int| 0 <= j < i ==> texts(known@).contains(#[trigger] contexts@[j]@),
        decreases contexts.len() - i,
    {
        if !is_known(known, &contexts[i]) {
            return Err(CredentialError::UnknownContext(i));
        }
        i += 1;
    }
    Ok(())
}

/// One listing to perform: the condition and the target, by their places.
#[derive(Debug, Clone, Copy, PartialEq, Eq, Structural)]
pub struct Step {
    pub query: usize,
    pub target: usize,
}

impl Step {
    /// The place of the step in the whole run, counted from zero.
    pub open spec fn position(self, targets: int) -> int {
        self.query * targets + self.target
    }
}

/// The step taken after `step`, if any: the next target of the same
/// condition, or the first target of the next condition.
pub open spec fn following(step: Step, queries: usize, targets: usize) -> Option<Step> {
    if step.target + 1 < targets {
        Some(Step { query: step.query, target: (step.target + 1) as usize })
    } else if step.query + 1 < queries {
        Some(Step { query: (step.query + 1) as usize, target: 0 })
    } else {
        None
    }
}

/// The first step of a run: none where there is no condition or no target.
pub fn first_step(queries: usize, targets: usize) -> (r: Option<Step>)
    ensures
        r == if queries > 0 && targets > 0 {
            Some(Step { query: 0, target: 0 })
        } else {
            None
        },
{
    if queries > 0 && targets > 0 {
        Some(Step { query: 0, target: 0 })
    } else {
        None
    }
}

/// The step after `step`.
pub fn next_step(step: Step, queries: usize, targets: usize) -> (r: Option<Step>)
    requires
        step.query < queries,
        step.target < targets,
    ensures
        r == following(step, queries, targets),
        r matches Some(s) ==> s.query < queries && s.target < targets,
{
    if step.target + 1 < targets {
        Some(Step { query: step.query, target: step.target + 1 })
    } else if step.query + 1 < queries {
        Some(Step { query: step.query + 1, target: 0 })
    } else {
        None
    }
}

/// A run visits every pair of a condition and a target exactly once: each
/// step stands one place after the one before it, and the run ends at the
/// last place.
pub proof fn lemma_steps_in_order(step: Step, queries: usize, targets: usize)
    requires
        step.query < queries,
        step.target < targets,
    ensures
        0 <= step.position(targets as int) < queries * targets,
        match following(step, queries, targets) {
            Some(next) => next.position(targets as int) == step.position(targets as int) + 1
                && next.query < queries && next.target < targets,
            None => step.position(targets as int) == queries * targets - 1,
        },
{
    let q = step.query as int;
    let t = step.target as int;
    let n = targets as int;
    let m = queries as int;
    assert(0 <= q * n) by (nonlinear_arith)
        requires
            0 <= q,
            0 <= n,
    ;
    assert(q * n + t < m * n) by (nonlinear_arith)
        requires
            0 <= q < m,
            0 <= t < n,
    ;
    assert((q + 1) * n == q * n + n) by (nonlinear_arith);
}

/// The step at place `k` of a run lists condition `k / T` in target `k % T`,
/// `T` being the number of targets.
pub proof fn lemma_step_at(step: Step, targets: usize, k: int)
    requires
        step.target < targets,
        step.position(targets as int) == k,
    ensures
        step.query == k / (targets as int),
        step.target == k % (targets as int),
{
    vstd::arithmetic::div_mod::lemma_fundamental_div_mod_converse(
        k,
        targets as int,
        step.query as int,
        step.target as int,
    );
}

/// The answer to one listing.
#[derive(Debug, Clone, PartialEq, Eq)]
pub enum Listing {
    /// The names of the objects that were listed, in the order of the answer.
    Names(Vec<String>),
    /// The listing could not be had.
    Failed,
}

impl View for Listing {
    type V = Option<Seq<Seq<char>>>;

    /// The names by their views; `None` for a listing that failed.
    open spec fn view(&self) -> Option<Seq<Seq<char>>> {
        match self {
            Listing::Names(names) => Some(texts(names@)),
            Listing::Failed => None,
        }
    }
}

/// Why a run was given up.
#[derive(Debug, Clone, Copy, PartialEq, Eq, Structural)]
pub enum ExecutionError {
    /// A listing could not be had.
    ListingFailed,
    /// A condition joined by AND found nothing in some target.
    NoResourceFound,
}

/// What becomes of the answer to the listing of `q` in `ns` of `ctx`.
pub open spec fn recorded(
    before: PrinterView,
    q: QueryView,
    ctx: Seq<char>,
    ns: Seq<char>,
    listing: Option<Seq<Seq<char>>>,
) -> Result<PrinterView, ExecutionError> {
    match listing {
        None => Err(ExecutionError::ListingFailed),
        Some(names) => if names.len() > 0 {
            Ok(
                PrinterView {
                    items: before.items.push(
                        PrintItemView {
                            context: ctx,
                            namespace: ns,
                            kind: q.kind,
                            value: joined(names, seq!['\n']),
                        },
                    ),
                    ..before
                },
            )
        } else if q.key == Some(Connective::And) {
            Err(ExecutionError::NoResourceFound)
        } else {
            Ok(before)
        },
    }
}

/// Takes in the answer to one listing. Names that were found are recorded.
/// Where nothing was found the run fails if the condition is joined by AND;
/// otherwise the target is passed over. A failed listing fails the run. The
/// printer changes only where something is recorded.
pub fn record(printer: &mut Printer, q: &Query, ctx: &str, ns: &str, listing: &Listing) -> (r:
    Result<(), ExecutionError>)
    ensures
        match recorded(old(printer)@, q@, ctx@, ns@, listing@) {
            Ok(after) => r is Ok && final(printer)@ == after,
            Err(e) => r == Err::<(), ExecutionError>(e) && final(printer)@ == old(printer)@,
        },
{
    match listing {
        Listing::Failed => Err(ExecutionError::ListingFailed),
        Listing::Names(names) => {
            if names.len() > 0 {
                printer.insert(ctx, ns, q.kind, names);
                Ok(())
            } else {
                match q.key {
                    Some(Connective::And) => Err(ExecutionError::NoResourceFound),
                    _ => Ok(()),
                }
            }
        },
    }
}

/// One listing to ask a cluster for.
#[derive(Debug, Clone, PartialEq, Eq)]
pub struct Call {
    pub kind: ResourceType,
    pub context: String,
    pub namespace: String,
    /// The field selector, `field1.field2=value`.
    pub selector: String,
}

/// A listing to ask for, by the views of its texts.
pub struct CallView {
    pub kind: ResourceType,
    pub context: Seq<char>,
    pub namespace: Seq<char>,
    pub selector: Seq<char>,
}

impl View for Call {
    type V = CallView;

    open spec fn view(&self) -> CallView {
        CallView {
            kind: self.kind,
            context: self.context@,
            namespace: self.namespace@,
            selector: self.selector@,
        }
    }
}

/// A run of a plan over its targets: what was recorded so far, which
/// listing is due next, and whether the run was given up.
pub struct Execution<'a> {
    queries: &'a [Query],
    targets: Vec<ApiBuilder<'a>>,
    printer: Printer<'a>,
    next: Option<Step>,
    failure: Option<ExecutionError>,
}

/// The state of a run.
pub struct ExecutionView {
    pub queries: Seq<QueryView>,
    /// The targets, each as its context and its namespace.
    pub pairs: Seq<(Seq<char>, Seq<char>)>,
    pub printer: PrinterView,
    /// The listing that is due; `None` once the run is over.
    pub next: Option<Step>,
    /// Why the run was given up, if it was.
    pub failure: Option<ExecutionError>,
}

impl ExecutionView {
    /// The listing that is due at `step`.
    pub open spec fn call(self, step: Step) -> CallView {
        CallView {
            kind: self.queries[step.query as int].kind,
            context: self.pairs[step.target as int].0,
            namespace: self.pairs[step.target as int].1,
            selector: selector(self.queries[step.query as int]),
        }
    }

    /// The state after the listing that is due was answered by `listing`:
    /// what was found is recorded and the next step is due, or the run is
    /// given up.
    pub open spec fn answered(self, listing: Option<Seq<Seq<char>>>) -> ExecutionView {
        let step = self.next->0;
        let q = self.queries[step.query as int];
        let pair = self.pairs[step.target as int];
        match recorded(self.printer, q, pair.0, pair.1, listing) {
            Ok(after) => ExecutionView {
                printer: after,
                next: following(step, self.queries.len() as usize, self.pairs.len() as usize),
                ..self
            },
            Err(e) => ExecutionView { next: None, failure: Some(e), ..self },
        }
    }
}

impl<'a> View for Execution<'a> {
    type V = ExecutionView;

    closed spec fn view(&self) -> ExecutionView {
        ExecutionView {
            queries: plan_view(self.queries@),
            pairs: Seq::new(
                self.targets@.len(),
                |i: int| (self.targets@[i]@.context->0, self.targets@[i]@.namespace->0),
            ),
            printer: self.printer@,
            next: self.next,
            failure: self.failure,
        }
    }
}

impl<'a> Execution<'a> {
    /// Every target has its context and namespace, and the step that is
    /// due lies within the plan and the targets.
    #[verifier::type_invariant]
    spec fn wf(&self) -> bool {
        &&& forall|i: int|
            0 <= i < self.targets@.len() ==> (#[trigger] self.targets@[i])@.context is Some
                && self.targets@[i]@.namespace is Some
        &&& self.next matches Some(s) ==> s.query < self.queries@.len() && s.target
            < self.targets@.len()
    }

    /// Sets a run up: nothing is recorded, the targets are all pairs of a
    /// context and a namespace with the contexts outermost, and the first
    /// condition is due in the first target.
    pub fn start(api_queries: &'a ApiQueries) -> (r: Execution<'a>)
        ensures
            r@ == (ExecutionView {
                queries: api_queries@.queries,
                pairs: product(api_queries@.contexts, api_queries@.namespaces),
                printer: PrinterView {
                    items: Seq::empty(),
                    contexts: api_queries@.contexts,
                    namespaces: api_queries@.namespaces,
                    queries: api_queries@.queries,
                },
                next: if api_queries@.queries.len() > 0 && product(
                    api_queries@.contexts,
                    api_queries@.namespaces,
                ).len() > 0 {
                    Some(Step { query: 0, target: 0 })
                } else {
                    None
                },
                failure: None,
            }),
    {
        let contexts = api_queries.contexts.as_slice();
        let namespaces = api_queries.namespaces.as_slice();
        let queries = api_queries.queries.as_slice();
        let apis = targets(contexts, namespaces, queries);
        let printer = Printer::builder().contexts(contexts).namespaces(namespaces).queries(queries);
        let next = first_step(queries.len(), apis.len());
        proof {
            let all = product(api_queries@.contexts, api_queries@.namespaces);
            let f = |p: (Seq<char>, Seq<char>)| target_of(p, plan_view(queries@));
            assert(target_views(apis@) == all.map_values(f));
            assert forall|i: int| 0 <= i < apis@.len() implies (#[trigger] apis@[i])@ == target_of(
                all[i],
                plan_view(queries@),
            ) by {
                assert(target_views(apis@)[i] == all.map_values(f)[i]);
            }
        }
        let r = Execution { queries, targets: apis, printer, next, failure: None };
        proof {
            assert(r@.pairs =~= product(api_queries@.contexts, api_queries@.namespaces));
        }
        r
    }

    /// Whether the run is over: every listing was answered, or one answer
    /// ended it.
    pub fn is_done(&self) -> (r: bool)
        ensures
            r == (self@.next is None),
    {
        self.next.is_none()
    }

    /// The listing that is due, if any.
    pub fn pending(&self) -> (r: Option<Call>)
        ensures
            match self@.next {
                Some(step) => r matches Some(call) && call@ == self@.call(step),
                None => r is None,
            },
    {
        proof {
            use_type_invariant(self);
        }
        match self.next {
            None => None,
            Some(s) => {
                let q = &self.queries[s.query];
                let api = &self.targets[s.target];
                Some(
                    Call {
                        kind: q.kind,
                        context: api.get_context().clone(),
                        namespace: api.get_namespace().clone(),
                        selector: field_selector(q),
                    },
                )
            },
        }
    }

    /// Why the run was given up, if it was.
    pub fn failure(&self) -> (r: Option<ExecutionError>)
        ensures
            r == self@.failure,
    {
        self.failure
    }

    /// Takes in the answer to the listing that is due and gives the state
    /// that follows.
    pub fn answer(self, listing: &Listing) -> (r: Execution<'a>)
        requires
            self@.next is Some,
        ensures
            r@ == self@.answered(listing@),
    {
        proof {
            use_type_invariant(&self);
        }
        let ghost before = self@;
        let Execution { queries, targets, printer, next, failure } = self;
        let mut printer = printer;
        let s = next.unwrap();
        let outcome = record(
            &mut printer,
            &queries[s.query],
            targets[s.target].get_context().as_str(),
            targets[s.target].get_namespace().as_str(),
            listing,
        );
        let r = match outcome {
            Ok(_) => Execution {
                queries,
                next: next_step(s, queries.len(), targets.len()),
                targets,
                printer,
                failure,
            },
            Err(e) => Execution { queries, targets, printer, next: None, failure: Some(e) },
        };
        proof {
            assert(r@.pairs =~= before.pairs);
        }
        r
    }

    /// The table of a run that is over: none where the run was given up.
    pub fn finish(self) -> (r: Result<Vec<Vec<String>>, ExecutionError>)
        requires
            self@.next is None,
        ensures
            match self@.failure {
                Some(e) => r == Err::<Vec<Vec<String>>, ExecutionError>(e),
                None => r matches Ok(rows) && grid(rows@) == self@.printer.table(),
            },
    {
        match self.failure {
            Some(e) => Err(e),
            None => Ok(self.printer.print()),
        }
    }
}

} // verus!
