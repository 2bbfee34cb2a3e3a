//! Collection of the matches and their layout as a table.
//!
//! The table has one column per context and one row per kind of resource
//! that the plan asks for. A cell holds, for each namespace in turn, the
//! names that were found there, or a dash.

use crate::kind::ResourceType;
use crate::planner::{plan_view, texts, Query, QueryView};
use vstd::prelude::*;

verus! {

/// The names found for one kind in one namespace of one context.
#[derive(Debug)]
pub struct PrintItem {
    pub context: String,
    pub namespace: String,
    pub kind: ResourceType,
    /// The names, one per line.
    pub value: String,
}

/// A recorded match, by the views of its texts.
pub struct PrintItemView {
    pub context: Seq<char>,
    pub namespace: Seq<char>,
    pub kind: ResourceType,
    pub value: Seq<char>,
}

impl View for PrintItem {
    type V = PrintItemView;

    open spec fn view(&self) -> PrintItemView {
        PrintItemView {
            context: self.context@,
            namespace: self.namespace@,
            kind: self.kind,
            value: self.value@,
        }
    }
}

/// The views of a sequence of items.
pub open spec fn item_views(v: Seq<PrintItem>) -> Seq<PrintItemView> {
    Seq::new(v.len(), |i: int| v[i]@)
}

/// The views of the rows of a table.
pub open spec fn grid(rows: Seq<Vec<String>>) -> Seq<Seq<Seq<char>>> {
    Seq::new(rows.len(), |i: int| texts(rows[i]@))
}

/// The parts in order, with `sep` between each two neighbours.
pub open spec fn joined(parts: Seq<Seq<char>>, sep: Seq<char>) -> Seq<char>
    decreases parts.len(),
{
    if parts.len() == 0 {
        Seq::empty()
    } else if parts.len() == 1 {
        parts[0]
    } else {
        joined(parts.drop_last(), sep) + sep + parts.last()
    }
}

/// The values of the items recorded for `kind` in `ns` of `ctx`, one after
/// the other in the order of recording.
pub open spec fn found(
    items: Seq<PrintItemView>,
    kind: ResourceType,
    ctx: Seq<char>,
    ns: Seq<char>,
) -> Seq<char>
    decreases items.len(),
{
    if items.len() == 0 {
        Seq::empty()
    } else {
        let before = found(items.drop_last(), kind, ctx, ns);
        let item = items.last();
        if item.kind == kind && item.context == ctx && item.namespace == ns {
            before + item.value
        } else {
            before
        }
    }
}

/// What is shown for `kind` in `ns` of `ctx`: what was found, or a dash.
pub open spec fn entry(
    items: Seq<PrintItemView>,
    kind: ResourceType,
    ctx: Seq<char>,
    ns: Seq<char>,
) -> Seq<char> {
    let f = found(items, kind, ctx, ns);
    if f.len() == 0 {
        seq!['-']
    } else {
        f
    }
}

/// The entries of `kind` in `ctx`, one per namespace in the given order.
pub open spec fn entries(
    items: Seq<PrintItemView>,
    kind: ResourceType,
    ctx: Seq<char>,
    namespaces: Seq<Seq<char>>,
) -> Seq<Seq<char>> {
    Seq::new(namespaces.len(), |j: int| entry(items, kind, ctx, namespaces[j]))
}

/// The cell of `kind` under `ctx`: its entries, one per line.
pub open spec fn cell(
    items: Seq<PrintItemView>,
    kind: ResourceType,
    ctx: Seq<char>,
    namespaces: Seq<Seq<char>>,
) -> Seq<char> {
    joined(entries(items, kind, ctx, namespaces), seq!['\n'])
}

/// The row of `kind`: its name, then its cell under each context.
pub open spec fn row(
    items: Seq<PrintItemView>,
    kind: ResourceType,
    contexts: Seq<Seq<char>>,
    namespaces: Seq<Seq<char>>,
) -> Seq<Seq<char>> {
    Seq::new(
        contexts.len() + 1,
        |i: int|
            if i == 0 {
                kind.name()
            } else {
                cell(items, kind, contexts[i - 1], namespaces)
            },
    )
}

/// The first row: a fixed label, then the contexts.
pub open spec fn header(contexts: Seq<Seq<char>>) -> Seq<Seq<char>> {
    Seq::new(
        contexts.len() + 1,
        |i: int|
            if i == 0 {
                "KIND/CONTEXT"@
            } else {
                contexts[i - 1]
            },
    )
}

/// The kinds that the conditions name, each once, in the order in which
/// they first occur.
pub open spec fn kinds_present(queries: Seq<QueryView>) -> Seq<ResourceType>
    decreases queries.len(),
{
    if queries.len() == 0 {
        Seq::empty()
    } else {
        let before = kinds_present(queries.drop_last());
        if before.contains(queries.last().kind) {
            before
        } else {
            before.push(queries.last().kind)
        }
    }
}

/// What a printer holds.
pub struct PrinterView {
    pub items: Seq<PrintItemView>,
    pub contexts: Seq<Seq<char>>,
    pub namespaces: Seq<Seq<char>>,
    pub queries: Seq<QueryView>,
}

impl PrinterView {
    /// The whole table: the header, then one row per kind present.
    pub open spec fn table(self) -> Seq<Seq<Seq<char>>> {
        let kinds = kinds_present(self.queries);
        Seq::new(
            kinds.len() + 1,
            |k: int|
                if k == 0 {
                    header(self.contexts)
                } else {
                    row(self.items, kinds[k - 1], self.contexts, self.namespaces)
                },
        )
    }
}

/// The kinds present are exactly the kinds that some condition names, and
/// none of them stands twice.
pub proof fn lemma_kinds_present(queries: Seq<QueryView>)
    ensures
        kinds_present(queries).no_duplicates(),
        forall|k: ResourceType| #[trigger]
            kinds_present(queries).contains(k) <==> exists|i: int|
                0 <= i < queries.len() && (#[trigger] queries[i]).kind == k,
    decreases queries.len(),
{
    if queries.len() > 0 {
        let init = queries.drop_last();
        let last = queries.last().kind;
        let before = kinds_present(init);
        lemma_kinds_present(init);
        assert forall|k: ResourceType| #[trigger]
            kinds_present(queries).contains(k) <==> exists|i: int|
                0 <= i < queries.len() && (#[trigger] queries[i]).kind == k by {
            if kinds_present(queries).contains(k) {
                if before.contains(k) {
                    let i = choose|i: int| 0 <= i < init.len() && (#[trigger] init[i]).kind == k;
                    assert(queries[i].kind == k);
                } else {
                    assert(before.push(last).contains(k));
                    let j = choose|j: int|
                        0 <= j < before.push(last).len() && before.push(last)[j] == k;
                    if j < before.len() {
                        assert(before[j] == k);
                    }
                    assert(k == last);
                    assert(queries[queries.len() - 1].kind == k);
                }
            }
            if exists|i: int| 0 <= i < queries.len() && (#[trigger] queries[i]).kind == k {
                let i = choose|i: int| 0 <= i < queries.len() && (#[trigger] queries[i]).kind == k;
                if i < init.len() {
                    assert(init[i].kind == k);
                    assert(before.contains(k));
                    if !before.contains(last) {
                        let j = choose|j: int| 0 <= j < before.len() && before[j] == k;
                        assert(before.push(last)[j] == k);
                    }
                } else {
                    assert(k == last);
                    if !before.contains(last) {
                        assert(before.push(last)[before.len() as int] == k);
                    }
                }
            }
        }
        if !before.contains(last) {
            assert forall|i: int, j: int|
                0 <= i < before.push(last).len() && 0 <= j < before.push(last).len() && i
                    != j implies before.push(last)[i] != before.push(last)[j] by {
                if i < before.len() && j < before.len() {
                } else if i < before.len() {
                    assert(before.contains(before[i]));
                } else {
                    assert(before.contains(before[j]));
                }
            }
        }
    }
}

/// The table is dense: the header and one row per kind present, each with
/// the label or the name of the kind first and then one cell per context.
pub proof fn lemma_table_shape(v: PrinterView)
    ensures
        v.table().len() == kinds_present(v.queries).len() + 1,
        v.table()[0] == header(v.contexts),
        forall|r: int| 0 <= r < v.table().len() ==> (#[trigger] v.table()[r]).len() == v.contexts.len() + 1,
        forall|k: int|
            0 <= k < kinds_present(v.queries).len() ==> (#[trigger] v.table()[k + 1])[0]
                == kinds_present(v.queries)[k].name(),
{
    assert forall|k: int| 0 <= k < kinds_present(v.queries).len() implies (#[trigger] v.table()[k
        + 1])[0] == kinds_present(v.queries)[k].name() by {
        assert(v.table()[k + 1] == row(
            v.items,
            kinds_present(v.queries)[k],
            v.contexts,
            v.namespaces,
        ));
    }
}

/// Where nothing was recorded for a kind in a namespace of a context, its
/// entry is a dash.
pub proof fn lemma_entry_dash(
    items: Seq<PrintItemView>,
    kind: ResourceType,
    ctx: Seq<char>,
    ns: Seq<char>,
)
    requires
        forall|i: int|
            0 <= i < items.len() ==> !((#[trigger] items[i]).kind == kind && items[i].context == ctx
                && items[i].namespace == ns),
    ensures
        entry(items, kind, ctx, ns) == seq!['-'],
    decreases items.len(),
{
    if items.len() > 0 {
        lemma_entry_dash(items.drop_last(), kind, ctx, ns);
        assert(!(items[items.len() - 1].kind == kind && items[items.len() - 1].context == ctx
            && items[items.len() - 1].namespace == ns));
    }
}

/// Collects matches and lays them out.
#[derive(Debug)]
pub struct Printer<'a> {
    items: Vec<PrintItem>,
    contexts: Option<&'a [String]>,
    namespaces: Option<&'a [String]>,
    queries: Option<&'a [Query]>,
}

impl<'a> View for Printer<'a> {
    type V = PrinterView;

    closed spec fn view(&self) -> PrinterView {
        PrinterView {
            items: item_views(self.items@),
            contexts: match self.contexts {
                Some(c) => texts(c@),
                None => Seq::empty(),
            },
            namespaces: match self.namespaces {
                Some(n) => texts(n@),
                None => Seq::empty(),
            },
            queries: match self.queries {
                Some(q) => plan_view(q@),
                None => Seq::empty(),
            },
        }
    }
}

impl<'a> Default for Printer<'a> {
    /// Nothing recorded, no contexts, no namespaces, no conditions.
    fn default() -> (r: Self)
        ensures
            r@ == (PrinterView {
                items: Seq::empty(),
                contexts: Seq::empty(),
                namespaces: Seq::empty(),
                queries: Seq::empty(),
            }),
    {
        let r = Printer { items: Vec::new(), contexts: None, namespaces: None, queries: None };
        proof {
            assert(item_views(r.items@) =~= Seq::empty());
        }
        r
    }
}

impl<'a> Printer<'a> {
    /// A printer that holds nothing.
    pub fn new() -> (r: Printer<'a>)
        ensures
            r@ == (PrinterView {
                items: Seq::empty(),
                contexts: Seq::empty(),
                namespaces: Seq::empty(),
                queries: Seq::empty(),
            }),
    {
        let r = Printer { items: Vec::new(), contexts: None, namespaces: None, queries: None };
        proof {
            assert(item_views(r.items@) =~= Seq::empty());
        }
        r
    }

    /// Starts a printer that holds nothing.
    pub fn builder() -> (r: Printer<'a>)
        ensures
            r@ == (PrinterView {
                items: Seq::empty(),
                contexts: Seq::empty(),
                namespaces: Seq::empty(),
                queries: Seq::empty(),
            }),
    {
        Printer::new()
    }

    /// Sets the contexts, the columns of the table.
    pub fn contexts(self, ctx: &'a [String]) -> (r: Printer<'a>)
        ensures
            r@ == (PrinterView { contexts: texts(ctx@), ..self@ }),
    {
        let mut this = self;
        this.contexts = Some(ctx);
        this
    }

    /// Sets the namespaces, the lines of each cell.
    pub fn namespaces(self, ns: &'a [String]) -> (r: Printer<'a>)
        ensures
            r@ == (PrinterView { namespaces: texts(ns@), ..self@ }),
    {
        let mut this = self;
        this.namespaces = Some(ns);
        this
    }

    /// Sets the conditions, whose kinds decide the rows.
    pub fn queries(self, queries: &'a [Query]) -> (r: Printer<'a>)
        ensures
            r@ == (PrinterView { queries: plan_view(queries@), ..self@ }),
    {
        let mut this = self;
        this.queries = Some(queries);
        this
    }

    /// Records the names of the deployments found in `ns` of `ctx`.
    pub fn insert_deployments(&mut self, ctx: &str, ns: &str, names: &Vec<String>)
        ensures
            final(self)@ == (PrinterView {
                items: old(self)@.items.push(
                    PrintItemView {
                        context: ctx@,
                        namespace: ns@,
                        kind: ResourceType::Deployment,
                        value: joined(texts(names@), seq!['\n']),
                    },
                ),
                ..old(self)@
            }),
    {
        self.insert(ctx, ns, ResourceType::Deployment, names);
    }

    /// Records the names of the pods found in `ns` of `ctx`.
    pub fn insert_pods(&mut self, ctx: &str, ns: &str, names: &Vec<String>)
        ensures
            final(self)@ == (PrinterView {
                items: old(self)@.items.push(
                    PrintItemView {
                        context: ctx@,
                        namespace: ns@,
                        kind: ResourceType::Pod,
                        value: joined(texts(names@), seq!['\n']),
                    },
                ),
                ..old(self)@
            }),
    {
        self.insert(ctx, ns, ResourceType::Pod, names);
    }

    /// Records the names found for `kind` in `ns` of `ctx`, one per line.
    pub fn insert(&mut self, ctx: &str, ns: &str, kind: ResourceType, names: &Vec<String>)
        ensures
            final(self)@ == (PrinterView {
                items: old(self)@.items.push(
                    PrintItemView {
                        context: ctx@,
                        namespace: ns@,
                        kind,
                        value: joined(texts(names@), seq!['\n']),
                    },
                ),
                ..old(self)@
            }),
    {
        proof {
            reveal_strlit("\n");
            assert("\n"@ =~= seq!['\n']);
        }
        let item = PrintItem {
            context: String::from_str(ctx),
            namespace: String::from_str(ns),
            kind,
            value: join(names, "\n"),
        };
        let ghost before = self.items@;
        self.items.push(item);
        proof {
            assert(item_views(self.items@) =~= item_views(before).push(item@));
        }
    }

    /// The table to print: its rows from the top, each cell as text.
    pub fn print(self) -> (r: Vec<Vec<String>>)
        ensures
            grid(r@) == self@.table(),
    {
        let no_names: Vec<String> = Vec::new();
        let no_queries: Vec<Query> = Vec::new();
        let contexts = match self.contexts {
            Some(c) => c,
            None => no_names.as_slice(),
        };
        let namespaces = match self.namespaces {
            Some(n) => n,
            None => no_names.as_slice(),
        };
        let queries = match self.queries {
            Some(q) => q,
            None => no_queries.as_slice(),
        };
        proof {
            assert(texts(no_names@) =~= Seq::empty());
            assert(plan_view(no_queries@) =~= Seq::empty());
        }
        table_of(&self.items, contexts, namespaces, queries)
    }
}

/// Joins the parts with `sep` between them.
pub fn join(parts: &Vec<String>, sep: &str) -> (r: String)
    ensures
        r@ == joined(texts(parts@), sep@),
{
    let mut out = String::new();
    let mut i: usize = 0;
    while i < parts.len()
        invariant
            i <= parts.len(),
            out@ == joined(texts(parts@).take(i as int), sep@),
        decreases parts.len() - i,
    {
        proof {
            let t = texts(parts@);
            assert(t.take(i + 1).drop_last() =~= t.take(i as int));
            assert(t.take(i + 1).last() == parts@[i as int]@);
            if i == 0 {
                assert(out@ + parts@[0]@ =~= parts@[0]@);
            }
        }
        if i > 0 {
            out.append(sep);
        }
        out.append(parts[i].as_str());
        i += 1;
    }
    proof {
        assert(texts(parts@).take(i as int) =~= texts(parts@));
    }
    out
}

/// What is shown for `kind` in `ns` of `ctx`.
pub fn entry_of(items: &Vec<PrintItem>, kind: ResourceType, ctx: &String, ns: &String) -> (r:
    String)
    ensures
        r@ == entry(item_views(items@), kind, ctx@, ns@),
{
    let mut out = String::new();
    let mut i: usize = 0;
    while i < items.len()
        invariant
            i <= items.len(),
            out@ == found(item_views(items@).take(i as int), kind, ctx@, ns@),
        decreases items.len() - i,
    {
        proof {
            let v = item_views(items@);
            assert(v.take(i + 1).drop_last() =~= v.take(i as int));
            assert(v.take(i + 1).last() == items@[i as int]@);
        }
        let item = &items[i];
        if item.kind == kind && item.context == *ctx && item.namespace == *ns {
            out.append(item.value.as_str());
        }
        i += 1;
    }
    proof {
        assert(item_views(items@).take(i as int) =~= item_views(items@));
        reveal_strlit("-");
        assert("-"@ =~= seq!['-']);
    }
    if out.as_str().is_empty() {
        String::from_str("-")
    } else {
        out
    }
}

/// The cell of `kind` under `ctx`.
pub fn cell_of(items: &Vec<PrintItem>, kind: ResourceType, ctx: &String, namespaces: &[String]) -> (r:
    String)
    ensures
        r@ == cell(item_views(items@), kind, ctx@, texts(namespaces@)),
{
    let mut lines: Vec<String> = Vec::new();
    let mut j: usize = 0;
    while j < namespaces.len()
        invariant
            j <= namespaces.len(),
            texts(lines@) == entries(item_views(items@), kind, ctx@, texts(namespaces@)).take(
                j as int,
            ),
        decreases namespaces.len() - j,
    {
        let ghost before = lines@;
        let line = entry_of(items, kind, ctx, &namespaces[j]);
        lines.push(line);
        proof {
            let all = entries(item_views(items@), kind, ctx@, texts(namespaces@));
            assert(texts(lines@) =~= texts(before).push(line@));
            assert(all.take(j + 1) =~= all.take(j as int).push(all[j as int]));
        }
        j += 1;
    }
    proof {
        let all = entries(item_views(items@), kind, ctx@, texts(namespaces@));
        assert(all.take(j as int) =~= all);
        reveal_strlit("\n");
        assert("\n"@ =~= seq!['\n']);
    }
    join(&lines, "\n")
}

/// The row of `kind`.
pub fn row_of(items: &Vec<PrintItem>, kind: ResourceType, contexts: &[String], namespaces: &[String]) -> (r:
    Vec<String>)
    ensures
        texts(r@) == row(item_views(items@), kind, texts(contexts@), texts(namespaces@)),
{
    let mut cells: Vec<String> = Vec::new();
    cells.push(kind.to_string());
    let mut i: usize = 0;
    proof {
        let all = row(item_views(items@), kind, texts(contexts@), texts(namespaces@));
        assert(texts(cells@) =~= all.take(1));
    }
    while i < contexts.len()
        invariant
            i <= contexts.len(),
            texts(cells@) == row(
                item_views(items@),
                kind,
                texts(contexts@),
                texts(namespaces@),
            ).take(i + 1),
        decreases contexts.len() - i,
    {
        let ghost before = cells@;
        let c = cell_of(items, kind, &contexts[i], namespaces);
        cells.push(c);
        proof {
            let all = row(item_views(items@), kind, texts(contexts@), texts(namespaces@));
            assert(texts(cells@) =~= texts(before).push(c@));
            assert(all.take(i + 2) =~= all.take(i + 1).push(all[i + 1]));
        }
        i += 1;
    }
    proof {
        let all = row(item_views(items@), kind, texts(contexts@), texts(namespaces@));
        assert(all.take(i + 1) =~= all);
    }
    cells
}

/// The first row of the table.
pub fn header_of(contexts: &[String]) -> (r: Vec<String>)
    ensures
        texts(r@) == header(texts(contexts@)),
{
    let mut cells: Vec<String> = Vec::new();
    cells.push(String::from_str("KIND/CONTEXT"));
    let mut i: usize = 0;
    proof {
        assert(texts(cells@) =~= header(texts(contexts@)).take(1));
    }
    while i < contexts.len()
        invariant
            i <= contexts.len(),
            texts(cells@) == header(texts(contexts@)).take(i + 1),
        decreases contexts.len() - i,
    {
        let ghost before = cells@;
        let c = contexts[i].clone();
        cells.push(c);
        proof {
            let all = header(texts(contexts@));
            assert(texts(cells@) =~= texts(before).push(c@));
            assert(all.take(i + 2) =~= all.take(i + 1).push(all[i + 1]));
        }
        i += 1;
    }
    proof {
        assert(header(texts(contexts@)).take(i + 1) =~= header(texts(contexts@)));
    }
    cells
}

/// Whether `kind` is among `kinds`.
pub fn has_kind(kinds: &Vec<ResourceType>, kind: ResourceType) -> (r: bool)
    ensures
        r == kinds@.contains(kind),
{
    let mut i: usize = 0;
    while i < kinds.len()
        invariant
            i <= kinds.len(),
            forall|j: int| 0 <= j < i ==> kinds@[j] != kind,
        decreases kinds.len() - i,
    {
        if kinds[i] == kind {
            return true;
        }
        i += 1;
    }
    false
}

/// The kinds that the conditions name, in first-seen order.
pub fn kinds_of(queries: &[Query]) -> (r: Vec<ResourceType>)
    ensures
        r@ == kinds_present(plan_view(queries@)),
{
    let mut kinds: Vec<ResourceType> = Vec::new();
    let mut i: usize = 0;
    while i < queries.len()
        invariant
            i <= queries.len(),
            kinds@ == kinds_present(plan_view(queries@).take(i as int)),
        decreases queries.len() - i,
    {
        proof {
            let v = plan_view(queries@);
            assert(v.take(i + 1).drop_last() =~= v.take(i as int));
            assert(v.take(i + 1).last() == queries@[i as int]@);
        }
        if !has_kind(&kinds, queries[i].kind) {
            kinds.push(queries[i].kind);
        }
        i += 1;
    }
    proof {
        assert(plan_view(queries@).take(i as int) =~= plan_view(queries@));
    }
    kinds
}

/// Lays out a table from its parts.
pub fn table_of(items: &Vec<PrintItem>, contexts: &[String], namespaces: &[String], queries: &[Query]) -> (r:
    Vec<Vec<String>>)
    ensures
        grid(r@) == (PrinterView {
            items: item_views(items@),
            contexts: texts(contexts@),
            namespaces: texts(namespaces@),
            queries: plan_view(queries@),
        }).table(),
{
    let ghost v = PrinterView {
        items: item_views(items@),
        contexts: texts(contexts@),
        namespaces: texts(namespaces@),
        queries: plan_view(queries@),
    };
    let kinds = kinds_of(queries);
    let mut rows: Vec<Vec<String>> = Vec::new();
    rows.push(header_of(contexts));
    proof {
        assert(grid(rows@) =~= v.table().take(1));
    }
    let mut k: usize = 0;
    while k < kinds.len()
        invariant
            k <= kinds.len(),
            kinds@ == kinds_present(v.queries),
            v == (PrinterView {
                items: item_views(items@),
                contexts: texts(contexts@),
                namespaces: texts(namespaces@),
                queries: plan_view(queries@),
            }),
            grid(rows@) == v.table().take(k + 1),
        decreases kinds.len() - k,
    {
        let ghost before = rows@;
        let r = row_of(items, kinds[k], contexts, namespaces);
        rows.push(r);
        proof {
            assert(grid(rows@) =~= grid(before).push(texts(r@)));
            assert(v.table().take(k + 2) =~= v.table().take(k + 1).push(v.table()[k + 1]));
        }
        k += 1;
    }
    proof {
        assert(v.table().take(k + 1) =~= v.table());
    }
    rows
}

} // verus!
