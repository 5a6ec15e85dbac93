//! Logical views: which of their inputs can be read, and the SQL that they are compiled to.
use vstd::prelude::*;

use crate::columns;
use crate::config;
use crate::config::{
    Backend, BackendModel, InputModel, LogicalView, MissingSourcePolicy, ViewInput, ViewMode,
    ViewModel,
};
use crate::order;
use crate::quote;
use crate::text;

verus! {

// ---------------------------------------------------------------------------
// Which inputs can be read
// ---------------------------------------------------------------------------

/// Why an input of a view cannot be read.
#[derive(Debug, Clone, Copy, PartialEq, Eq, Structural)]
pub enum SkipReason {
    NotRegistered,
    Disabled,
}

pub open spec fn reason_text(reason: SkipReason) -> Seq<char> {
    match reason {
        SkipReason::NotRegistered => "not_registered"@,
        SkipReason::Disabled => "disabled"@,
    }
}

impl SkipReason {
    /// The word for the reason.
    pub fn text(&self) -> (r: &'static str)
        ensures
            r@ == reason_text(*self),
    {
        match self {
            SkipReason::NotRegistered => "not_registered",
            SkipReason::Disabled => "disabled",
        }
    }
}

/// Whether a backend is registered under a name.
pub open spec fn registered(backends: Seq<BackendModel>, name: Seq<char>) -> bool {
    exists|i: int| 0 <= i < backends.len() && (#[trigger] backends[i]).name == name
}

/// Whether a backend that is registered under a name is enabled.
pub open spec fn available(backends: Seq<BackendModel>, name: Seq<char>) -> bool {
    exists|i: int|
        0 <= i < backends.len() && (#[trigger] backends[i]).name == name && backends[i].enabled
}

/// Why the backend of a name cannot be read, where it cannot.
pub open spec fn missing(backends: Seq<BackendModel>, name: Seq<char>) -> Option<SkipReason> {
    if available(backends, name) {
        None
    } else if registered(backends, name) {
        Some(SkipReason::Disabled)
    } else {
        Some(SkipReason::NotRegistered)
    }
}

/// Why the backend of a name cannot be read, where it cannot.
pub fn missing_reason(backends: &Vec<Backend>, name: &str) -> (r: Option<SkipReason>)
    ensures
        r == missing(order::models(backends@), name@),
{
    let ghost all = order::models(backends@);
    let mut found = false;
    let mut i: usize = 0;
    while i < backends.len()
        invariant
            i <= backends@.len(),
            all == order::models(backends@),
            forall|j: int|
                0 <= j < i ==> !((#[trigger] all[j]).name == name@ && all[j].enabled),
            !found ==> forall|j: int| 0 <= j < i ==> (#[trigger] all[j]).name != name@,
            found ==> registered(all, name@),
        decreases backends@.len() - i,
    {
        assert(all[i as int] == backends@[i as int]@);
        if text::same_text(backends[i].name.as_str(), name) {
            if backends[i].enabled {
                assert(available(all, name@));
                return None;
            }
            found = true;
        }
        i += 1;
    }
    if found {
        Some(SkipReason::Disabled)
    } else {
        Some(SkipReason::NotRegistered)
    }
}

/// The inputs that can be read, in order.
pub open spec fn resolved(backends: Seq<BackendModel>, inputs: Seq<InputModel>) -> Seq<InputModel>
    decreases inputs.len(),
{
    if inputs.len() == 0 {
        Seq::empty()
    } else {
        let before = resolved(backends, inputs.drop_last());
        if missing(backends, inputs.last().backend) is None {
            before.push(inputs.last())
        } else {
            before
        }
    }
}

/// The inputs that cannot be read, in order: the names of their backends, and why.
pub open spec fn skipped(
    backends: Seq<BackendModel>,
    inputs: Seq<InputModel>,
) -> Seq<(Seq<char>, SkipReason)>
    decreases inputs.len(),
{
    if inputs.len() == 0 {
        Seq::empty()
    } else {
        let before = skipped(backends, inputs.drop_last());
        match missing(backends, inputs.last().backend) {
            None => before,
            Some(reason) => before.push((inputs.last().backend, reason)),
        }
    }
}

/// An input that cannot be read.
#[derive(Debug)]
pub struct SkippedSource {
    pub backend: String,
    pub reason: SkipReason,
}

impl View for SkippedSource {
    type V = (Seq<char>, SkipReason);

    open spec fn view(&self) -> (Seq<char>, SkipReason) {
        (self.backend@, self.reason)
    }
}

/// What has become of a view.
#[derive(Debug, Clone, Copy, PartialEq, Eq, Structural)]
pub enum ViewStatus {
    Active,
    Unavailable,
    Disabled,
}

pub open spec fn status_text(status: ViewStatus) -> Seq<char> {
    match status {
        ViewStatus::Active => "active"@,
        ViewStatus::Unavailable => "unavailable"@,
        ViewStatus::Disabled => "disabled"@,
    }
}

impl ViewStatus {
    /// The word for the status.
    pub fn text(&self) -> (r: &'static str)
        ensures
            r@ == status_text(*self),
    {
        match self {
            ViewStatus::Active => "active",
            ViewStatus::Unavailable => "unavailable",
            ViewStatus::Disabled => "disabled",
        }
    }
}

/// A view is active where it is enabled and an input can be read, and unavailable where it
/// is enabled and none can.
pub open spec fn view_status(backends: Seq<BackendModel>, view: ViewModel) -> ViewStatus {
    if !view.enabled {
        ViewStatus::Disabled
    } else if resolved(backends, view.inputs).len() > 0 {
        ViewStatus::Active
    } else {
        ViewStatus::Unavailable
    }
}

/// Which inputs of a view can be read, and what follows for the view.
#[derive(Debug)]
pub struct ViewResolution {
    pub status: ViewStatus,
    pub resolved_sources: Vec<ViewInput>,
    pub skipped_sources: Vec<SkippedSource>,
}

/// Whether a resolution is that of a view among backends.
pub open spec fn resolution_of(
    r: ViewResolution,
    backends: Seq<BackendModel>,
    view: ViewModel,
) -> bool {
    &&& r.status == view_status(backends, view)
    &&& order::models(r.resolved_sources@) == resolved(backends, view.inputs)
    &&& order::models(r.skipped_sources@) == skipped(backends, view.inputs)
}

/// Tells the inputs of a view that can be read from those that cannot.
pub fn resolve_view(backends: &Vec<Backend>, view: &LogicalView) -> (r: ViewResolution)
    ensures
        resolution_of(r, order::models(backends@), view@),
{
    let ghost all = order::models(backends@);
    let ghost inputs = view@.inputs;
    let mut resolved_sources: Vec<ViewInput> = Vec::new();
    let mut skipped_sources: Vec<SkippedSource> = Vec::new();
    let mut i: usize = 0;
    assert(order::models(resolved_sources@) =~= resolved(all, inputs.take(0)));
    assert(order::models(skipped_sources@) =~= skipped(all, inputs.take(0)));
    while i < view.inputs.len()
        invariant
            i <= view.inputs@.len(),
            all == order::models(backends@),
            inputs == order::models(view.inputs@),
            order::models(resolved_sources@) == resolved(all, inputs.take(i as int)),
            order::models(skipped_sources@) == skipped(all, inputs.take(i as int)),
        decreases view.inputs@.len() - i,
    {
        let input = &view.inputs[i];
        assert(inputs[i as int] == input@);
        assert(inputs.take(i + 1).drop_last() =~= inputs.take(i as int));
        assert(inputs.take(i + 1).last() == input@);
        match missing_reason(backends, input.backend.as_str()) {
            None => {
                let copy = input.clone();
                proof {
                    order::lemma_models_push(resolved_sources@, copy);
                }
                resolved_sources.push(copy);
            },
            Some(reason) => {
                let source = SkippedSource { backend: input.backend.clone(), reason };
                proof {
                    order::lemma_models_push(skipped_sources@, source);
                }
                skipped_sources.push(source);
            },
        }
        i += 1;
    }
    assert(inputs.take(inputs.len() as int) =~= inputs);
    let status = if !view.enabled {
        ViewStatus::Disabled
    } else if resolved_sources.len() > 0 {
        ViewStatus::Active
    } else {
        ViewStatus::Unavailable
    };
    ViewResolution { status, resolved_sources, skipped_sources }
}

// ---------------------------------------------------------------------------
// SQL
// ---------------------------------------------------------------------------

/// The physical column of an input that stands for a logical one: the column that it is
/// mapped to, or else the column of the same name.
pub open spec fn physical(input: InputModel, logical: Seq<char>) -> Seq<char> {
    match columns::lookup(input.columns, logical) {
        Some(column) => column,
        None => logical,
    }
}

/// How an input gives a logical column: its physical column, cast to the declared type
/// under the logical name.
pub open spec fn projected(input: InputModel, column: columns::Entry) -> Seq<char> {
    "CAST("@ + quote::quoted_ident(physical(input, column.0)) + " AS "@ + column.1 + ") AS "@
        + quote::quoted_ident(column.0)
}

pub open spec fn projected_columns(view: ViewModel, input: InputModel) -> Seq<Seq<char>> {
    view.columns.map_values(|column: columns::Entry| projected(input, column))
}

/// The columns that an input gives: those that the view declares, or else all.
pub open spec fn projection(view: ViewModel, input: InputModel) -> Seq<char> {
    if view.columns.len() == 0 {
        "*"@
    } else {
        text::joined(projected_columns(view, input), ", "@)
    }
}

/// The column that tells which backend a row is from, where the view has one.
pub open spec fn provenance(view: ViewModel, input: InputModel) -> Seq<char> {
    match view.source_column {
        Some(column) => quote::quoted_literal(input.backend) + " AS "@ + quote::quoted_ident(column)
            + ", "@,
        None => Seq::empty(),
    }
}

pub open spec fn quoted_parts(relation: Seq<char>) -> Seq<Seq<char>> {
    text::split_on(relation, '.').map_values(|part: Seq<char>| quote::quoted_ident(part))
}

/// The relation that an input reads, with its backend in front and each part quoted.
pub open spec fn relation_path(input: InputModel) -> Seq<char> {
    quote::quoted_ident(input.backend) + "."@ + text::joined(quoted_parts(input.relation), "."@)
}

/// The query by which a view reads an input.
pub open spec fn branch(view: ViewModel, input: InputModel) -> Seq<char> {
    "SELECT "@ + provenance(view, input) + projection(view, input) + " FROM "@ + relation_path(
        input,
    )
}

pub open spec fn branches(view: ViewModel, inputs: Seq<InputModel>) -> Seq<Seq<char>> {
    inputs.map_values(|input: InputModel| branch(view, input))
}

pub open spec fn combination(mode: ViewMode) -> Seq<char> {
    match mode {
        ViewMode::UnionAll => "\nUNION ALL\n"@,
        ViewMode::UnionAllByName => "\nUNION ALL BY NAME\n"@,
    }
}

/// The statements that create a view over inputs.
pub open spec fn view_statements(view: ViewModel, inputs: Seq<InputModel>) -> Seq<char> {
    "CREATE SCHEMA IF NOT EXISTS "@ + quote::quoted_ident(view.schema) + ";\nCREATE VIEW "@
        + quote::quoted_ident(view.schema) + "."@ + quote::quoted_ident(view.name) + " AS\n"@
        + text::joined(branches(view, inputs), combination(view.mode)) + ";"@
}

fn physical_column(input: &ViewInput, logical: &str) -> (r: String)
    ensures
        r@ == physical(input@, logical@),
{
    match input.columns.get(logical) {
        Some(column) => column,
        None => logical.to_owned(),
    }
}

fn project(view: &LogicalView, input: &ViewInput) -> (r: String)
    ensures
        r@ == projection(view@, input@),
{
    if view.columns.len() == 0 {
        return "*".to_owned();
    }
    let ghost all = projected_columns(view@, input@);
    let mut list: Vec<String> = Vec::new();
    let mut k: usize = 0;
    while k < view.columns.len()
        invariant
            k <= view@.columns.len(),
            all == projected_columns(view@, input@),
            text::texts(list@) == all.take(k as int),
        decreases view@.columns.len() - k,
    {
        let logical = view.columns.name_at(k);
        let mut column = "CAST(".to_owned();
        column.append(quote::quote_ident(physical_column(input, logical).as_str()).as_str());
        column.append(" AS ");
        column.append(view.columns.value_at(k));
        column.append(") AS ");
        column.append(quote::quote_ident(logical).as_str());
        assert(column@ == projected(input@, view@.columns[k as int]));
        assert(all[k as int] == column@);
        let ghost before = list@;
        list.push(column);
        assert(text::texts(list@) =~= text::texts(before).push(column@));
        assert(all.take(k + 1) =~= all.take(k as int).push(all[k as int]));
        k += 1;
    }
    assert(all.take(all.len() as int) =~= all);
    text::join(&list, ", ")
}

fn quote_relation(relation: &str) -> (r: String)
    ensures
        r@ == text::joined(quoted_parts(relation@), "."@),
{
    let parts = text::split(relation, '.');
    let ghost pieces = text::split_on(relation@, '.');
    let ghost all = quoted_parts(relation@);
    let mut quoted: Vec<String> = Vec::new();
    let mut k: usize = 0;
    while k < parts.len()
        invariant
            k <= parts@.len(),
            text::texts(parts@) == pieces,
            pieces == text::split_on(relation@, '.'),
            all == quoted_parts(relation@),
            text::texts(quoted@) == all.take(k as int),
        decreases parts@.len() - k,
    {
        assert(pieces[k as int] == parts@[k as int]@);
        let part = quote::quote_ident(parts[k].as_str());
        assert(all[k as int] == part@);
        let ghost before = quoted@;
        quoted.push(part);
        assert(text::texts(quoted@) =~= text::texts(before).push(part@));
        assert(all.take(k + 1) =~= all.take(k as int).push(all[k as int]));
        k += 1;
    }
    assert(all.take(all.len() as int) =~= all);
    text::join(&quoted, ".")
}

fn branch_sql(view: &LogicalView, input: &ViewInput) -> (r: String)
    ensures
        r@ == branch(view@, input@),
{
    let mut r = "SELECT ".to_owned();
    let mut origin = String::new();
    if let Some(column) = &view.source_column {
        origin = quote::quote_literal(input.backend.as_str());
        origin.append(" AS ");
        origin.append(quote::quote_ident(column.as_str()).as_str());
        origin.append(", ");
    }
    assert(origin@ == provenance(view@, input@));
    r.append(origin.as_str());
    r.append(project(view, input).as_str());
    r.append(" FROM ");
    let mut path = quote::quote_ident(input.backend.as_str());
    path.append(".");
    path.append(quote_relation(input.relation.as_str()).as_str());
    r.append(path.as_str());
    r
}

/// The statements that create a view over inputs.
pub fn view_sql(view: &LogicalView, inputs: &Vec<ViewInput>) -> (sql: String)
    ensures
        sql@ == view_statements(view@, order::models(inputs@)),
{
    let ghost models = order::models(inputs@);
    let ghost all = branches(view@, models);
    let mut list: Vec<String> = Vec::new();
    let mut k: usize = 0;
    while k < inputs.len()
        invariant
            k <= inputs@.len(),
            models == order::models(inputs@),
            all == branches(view@, models),
            text::texts(list@) == all.take(k as int),
        decreases inputs@.len() - k,
    {
        assert(models[k as int] == inputs@[k as int]@);
        let one = branch_sql(view, &inputs[k]);
        assert(all[k as int] == one@);
        let ghost before = list@;
        list.push(one);
        assert(text::texts(list@) =~= text::texts(before).push(one@));
        assert(all.take(k + 1) =~= all.take(k as int).push(all[k as int]));
        k += 1;
    }
    assert(all.take(all.len() as int) =~= all);
    let between = match view.mode {
        ViewMode::UnionAll => "\nUNION ALL\n",
        ViewMode::UnionAllByName => "\nUNION ALL BY NAME\n",
    };
    let mut sql = "CREATE SCHEMA IF NOT EXISTS ".to_owned();
    sql.append(quote::quote_ident(view.schema.as_str()).as_str());
    sql.append(";\nCREATE VIEW ");
    sql.append(quote::quote_ident(view.schema.as_str()).as_str());
    sql.append(".");
    sql.append(quote::quote_ident(view.name.as_str()).as_str());
    sql.append(" AS\n");
    sql.append(text::join(&list, between).as_str());
    sql.append(";");
    sql
}

// ---------------------------------------------------------------------------
// Compilation
// ---------------------------------------------------------------------------

/// A view that needs all of its inputs lacks one.
#[derive(Debug)]
pub struct ViewError {
    pub view: String,
    pub backend: String,
    pub reason: SkipReason,
}

/// The model of a [`ViewError`].
#[verifier::ext_equal]
pub struct ViewFault {
    pub view: Seq<char>,
    pub backend: Seq<char>,
    pub reason: SkipReason,
}

impl View for ViewError {
    type V = ViewFault;

    open spec fn view(&self) -> ViewFault {
        ViewFault { view: self.view@, backend: self.backend@, reason: self.reason }
    }
}

pub open spec fn view_fault_text(fault: ViewFault) -> Seq<char> {
    match fault.reason {
        SkipReason::NotRegistered => "view "@ + fault.view + " requires unregistered backend "@
            + fault.backend,
        SkipReason::Disabled => "view "@ + fault.view + " requires disabled backend "@
            + fault.backend,
    }
}

impl ViewError {
    /// The report of the error.
    pub fn message(&self) -> (r: String)
        ensures
            r@ == view_fault_text(self@),
    {
        let mut r = "view ".to_owned();
        r.append(self.view.as_str());
        match self.reason {
            SkipReason::NotRegistered => r.append(" requires unregistered backend "),
            SkipReason::Disabled => r.append(" requires disabled backend "),
        }
        r.append(self.backend.as_str());
        r
    }
}

/// What a view is compiled to. A view that is disabled, or of which no input can be read, is
/// compiled to nothing; one that needs all of its inputs and lacks one is an error, which
/// names the first that is missing.
pub open spec fn compilation(backends: Seq<BackendModel>, view: ViewModel) -> Result<
    Option<Seq<char>>,
    ViewFault,
> {
    let inputs = resolved(backends, view.inputs);
    let absent = skipped(backends, view.inputs);
    if !view.enabled {
        Ok(None)
    } else if view.missing_source_policy == MissingSourcePolicy::Error && absent.len() > 0 {
        Err(
            ViewFault {
                view: config::qualified(view),
                backend: absent[0].0,
                reason: absent[0].1,
            },
        )
    } else if inputs.len() == 0 {
        Ok(None)
    } else {
        Ok(Some(view_statements(view, inputs)))
    }
}

/// The views of what compiling returns.
pub open spec fn compiled(r: Result<Option<String>, ViewError>) -> Result<
    Option<Seq<char>>,
    ViewFault,
> {
    match r {
        Ok(sql) => Ok(config::optional(sql)),
        Err(error) => Err(error@),
    }
}

/// The statements that create a view, where it is to be created.
pub fn compile_view(backends: &Vec<Backend>, view: &LogicalView) -> (r: Result<
    Option<String>,
    ViewError,
>)
    ensures
        compiled(r) == compilation(order::models(backends@), view@),
{
    if !view.enabled {
        return Ok(None);
    }
    let resolution = resolve_view(backends, view);
    if view.missing_source_policy == MissingSourcePolicy::Error && resolution.skipped_sources.len()
        > 0 {
        let first = &resolution.skipped_sources[0];
        assert(order::models(resolution.skipped_sources@)[0] == first@);
        return Err(
            ViewError {
                view: view.qualified_name(),
                backend: first.backend.clone(),
                reason: first.reason,
            },
        );
    }
    if resolution.resolved_sources.len() == 0 {
        return Ok(None);
    }
    Ok(Some(view_sql(view, &resolution.resolved_sources)))
}

// ---------------------------------------------------------------------------
// Laws
// ---------------------------------------------------------------------------

/// How many inputs in front of `i` are read.
pub open spec fn read_before(backends: Seq<BackendModel>, inputs: Seq<InputModel>, i: int) -> int {
    resolved(backends, inputs.take(i)).len() as int
}

/// How many inputs in front of `i` are skipped.
pub open spec fn skipped_before(
    backends: Seq<BackendModel>,
    inputs: Seq<InputModel>,
    i: int,
) -> int {
    skipped(backends, inputs.take(i)).len() as int
}

/// Whether the input at `i` is read or skipped, and not both: one whose backend is registered
/// and enabled stands behind the earlier ones that are read, and any other stands with its
/// reason behind the earlier ones that are skipped.
pub open spec fn accounted_for(
    backends: Seq<BackendModel>,
    inputs: Seq<InputModel>,
    i: int,
    input: InputModel,
) -> bool {
    let place = read_before(backends, inputs, i);
    let gap = skipped_before(backends, inputs, i);
    &&& place + gap == i
    &&& match missing(backends, input.backend) {
        None => {
            &&& place < resolved(backends, inputs).len()
            &&& resolved(backends, inputs)[place] == input
            &&& read_before(backends, inputs, i + 1) == place + 1
            &&& skipped_before(backends, inputs, i + 1) == gap
        },
        Some(reason) => {
            &&& gap < skipped(backends, inputs).len()
            &&& skipped(backends, inputs)[gap] == (input.backend, reason)
            &&& skipped_before(backends, inputs, i + 1) == gap + 1
            &&& read_before(backends, inputs, i + 1) == place
        },
    }
}

/// Every input of a view is read or reported as skipped, in order, and none is both: an input
/// whose backend is registered and enabled stands behind the earlier ones that are read, any
/// other stands with its reason behind the earlier ones that are skipped, and nothing else is
/// read or skipped.
pub proof fn every_input_is_accounted_for(backends: Seq<BackendModel>, inputs: Seq<InputModel>)
    ensures
        resolved(backends, inputs).len() + skipped(backends, inputs).len() == inputs.len(),
        forall|i: int|
            0 <= i < inputs.len() ==> accounted_for(backends, inputs, i, #[trigger] inputs[i]),
{
    lemma_counts(backends, inputs);
    assert forall|i: int| 0 <= i < inputs.len() implies accounted_for(
        backends,
        inputs,
        i,
        #[trigger] inputs[i],
    ) by {
        lemma_accounted_for(backends, inputs, i);
    }
}

proof fn lemma_counts(backends: Seq<BackendModel>, inputs: Seq<InputModel>)
    ensures
        resolved(backends, inputs).len() + skipped(backends, inputs).len() == inputs.len(),
    decreases inputs.len(),
{
    if inputs.len() > 0 {
        lemma_counts(backends, inputs.drop_last());
    }
}

proof fn lemma_accounted_for(backends: Seq<BackendModel>, inputs: Seq<InputModel>, i: int)
    requires
        0 <= i < inputs.len(),
    ensures
        accounted_for(backends, inputs, i, inputs[i]),
    decreases inputs.len(),
{
    let front = inputs.drop_last();
    if i < front.len() {
        lemma_accounted_for(backends, front, i);
        assert(front.take(i) =~= inputs.take(i));
        assert(front.take(i + 1) =~= inputs.take(i + 1));
        assert(resolved(backends, front).is_prefix_of(resolved(backends, inputs)));
        assert(skipped(backends, front).is_prefix_of(skipped(backends, inputs)));
    } else {
        assert(inputs.take(i) =~= front);
        assert(inputs.take(i + 1) =~= inputs);
        lemma_counts(backends, front);
    }
}

/// A view reads only inputs that it names and whose backends are registered and enabled, and
/// what it skips is named too, and lacks a backend that is.
pub proof fn only_available_sources_are_read(backends: Seq<BackendModel>, inputs: Seq<InputModel>)
    ensures
        forall|i: int|
            0 <= i < resolved(backends, inputs).len() ==> inputs.contains(
                #[trigger] resolved(backends, inputs)[i],
            ) && available(backends, resolved(backends, inputs)[i].backend),
        forall|i: int|
            0 <= i < skipped(backends, inputs).len() ==> missing(
                backends,
                (#[trigger] skipped(backends, inputs)[i]).0,
            ) == Some(skipped(backends, inputs)[i].1),
    decreases inputs.len(),
{
    if inputs.len() > 0 {
        let front = inputs.drop_last();
        only_available_sources_are_read(backends, front);
        let kept = resolved(backends, inputs);
        assert forall|i: int| 0 <= i < kept.len() implies inputs.contains(#[trigger] kept[i])
            && available(backends, kept[i].backend) by {
            if i < resolved(backends, front).len() {
                assert(kept[i] == resolved(backends, front)[i]);
                let j = choose|j: int| 0 <= j < front.len() && front[j] == kept[i];
                assert(inputs[j] == kept[i]);
            } else {
                assert(kept[i] == inputs.last());
            }
        }
        let gone = skipped(backends, inputs);
        assert forall|i: int| 0 <= i < gone.len() implies missing(backends, (#[trigger] gone[i]).0)
            == Some(gone[i].1) by {
            if i < skipped(backends, front).len() {
                assert(gone[i] == skipped(backends, front)[i]);
            }
        }
    }
}

proof fn lemma_nothing_skipped(backends: Seq<BackendModel>, inputs: Seq<InputModel>)
    ensures
        skipped(backends, inputs).len() == 0 <==> (forall|i: int|
            0 <= i < inputs.len() ==> available(backends, (#[trigger] inputs[i]).backend)),
        skipped(backends, inputs).len() == 0 ==> resolved(backends, inputs) == inputs,
    decreases inputs.len(),
{
    if inputs.len() > 0 {
        let front = inputs.drop_last();
        lemma_nothing_skipped(backends, front);
        if skipped(backends, inputs).len() == 0 {
            assert(resolved(backends, inputs) =~= inputs);
            assert forall|i: int| 0 <= i < inputs.len() implies available(
                backends,
                (#[trigger] inputs[i]).backend,
            ) by {
                if i < front.len() {
                    assert(front[i] == inputs[i]);
                }
            }
        }
        if forall|i: int| 0 <= i < inputs.len() ==> available(
            backends,
            (#[trigger] inputs[i]).backend,
        ) {
            assert forall|i: int| 0 <= i < front.len() implies available(
                backends,
                (#[trigger] front[i]).backend,
            ) by {
                assert(front[i] == inputs[i]);
            }
            assert(available(backends, inputs[inputs.len() - 1].backend));
        }
    } else {
        assert(resolved(backends, inputs) =~= inputs);
    }
}

/// An enabled view that needs all of its inputs is created over all of them, in order, where
/// each is registered and enabled, and is an error where one is not.
pub proof fn strict_views_need_every_source(backends: Seq<BackendModel>, view: ViewModel)
    requires
        view.enabled,
        view.missing_source_policy == MissingSourcePolicy::Error,
        view.inputs.len() > 0,
    ensures
        (forall|i: int|
            0 <= i < view.inputs.len() ==> available(backends, (#[trigger] view.inputs[i]).backend))
            ==> compilation(backends, view) == Ok::<Option<Seq<char>>, ViewFault>(
            Some(view_statements(view, view.inputs)),
        ),
        !(forall|i: int|
            0 <= i < view.inputs.len() ==> available(backends, (#[trigger] view.inputs[i]).backend))
            ==> compilation(backends, view) is Err,
{
    lemma_nothing_skipped(backends, view.inputs);
}

/// A view that skips missing inputs never fails to compile, and is created exactly where an
/// input is left.
pub proof fn lenient_views_never_fail(backends: Seq<BackendModel>, view: ViewModel)
    requires
        view.missing_source_policy == MissingSourcePolicy::Skip,
    ensures
        compilation(backends, view) matches Ok(sql) && (sql is Some <==> view_status(backends, view)
            == ViewStatus::Active),
{
}

/// Where nothing is missing, both policies compile a view to the same statements.
pub proof fn policies_agree_when_nothing_is_missing(
    backends: Seq<BackendModel>,
    strict: ViewModel,
    lenient: ViewModel,
)
    requires
        strict.missing_source_policy == MissingSourcePolicy::Error,
        lenient == (ViewModel { missing_source_policy: MissingSourcePolicy::Skip, ..strict }),
        forall|i: int|
            0 <= i < strict.inputs.len() ==> available(
                backends,
                (#[trigger] strict.inputs[i]).backend,
            ),
    ensures
        compilation(backends, strict) == compilation(backends, lenient),
{
    lemma_nothing_skipped(backends, strict.inputs);
    let inputs = strict.inputs;
    if inputs.len() > 0 && strict.enabled {
        assert(branches(strict, inputs) =~= branches(lenient, inputs)) by {
            assert forall|i: int| 0 <= i < inputs.len() implies branches(strict, inputs)[i]
                == branches(lenient, inputs)[i] by {
                assert(projected_columns(strict, inputs[i]) =~= projected_columns(
                    lenient,
                    inputs[i],
                ));
            }
        }
    }
}

// ---------------------------------------------------------------------------
// Laws of the statements
// ---------------------------------------------------------------------------

/// Whether an input can be read, its backend is only disabled, or nobody has registered it:
/// that is told by the backends that have the name.
pub proof fn a_source_is_missing_where_no_enabled_backend_has_its_name(
    backends: &Vec<Backend>,
    name: &str,
    r: Option<SkipReason>,
)
    requires
        call_ensures(missing_reason, (backends, name), r),
    ensures
        r is None <==> exists|i: int|
            0 <= i < backends@.len() && (#[trigger] backends@[i]).name@ == name@
                && backends@[i].enabled,
        r == Some(SkipReason::NotRegistered) <==> forall|i: int|
            0 <= i < backends@.len() ==> (#[trigger] backends@[i]).name@ != name@,
{
    let all = order::models(backends@);
    assert forall|i: int| 0 <= i < backends@.len() implies all[i] == (#[trigger] backends@[i])@ by {
    }
    if exists|i: int|
        0 <= i < backends@.len() && (#[trigger] backends@[i]).name@ == name@
            && backends@[i].enabled {
        let i = choose|i: int|
            0 <= i < backends@.len() && (#[trigger] backends@[i]).name@ == name@
                && backends@[i].enabled;
        assert(all[i].name == name@ && all[i].enabled);
    }
    if available(all, name@) {
        let i = choose|i: int|
            0 <= i < all.len() && (#[trigger] all[i]).name == name@ && all[i].enabled;
        assert(backends@[i].name@ == name@ && backends@[i].enabled);
    }
    if registered(all, name@) {
        let i = choose|i: int| 0 <= i < all.len() && (#[trigger] all[i]).name == name@;
        assert(backends@[i].name@ == name@);
    }
    if exists|i: int| 0 <= i < backends@.len() && (#[trigger] backends@[i]).name@ == name@ {
        let i = choose|i: int| 0 <= i < backends@.len() && (#[trigger] backends@[i]).name@ == name@;
        assert(all[i].name == name@);
    }
}

/// A view is disabled exactly where it is not enabled, and one that is enabled is active
/// exactly where the backend of one of its inputs is registered and enabled.
pub proof fn an_enabled_view_is_active_where_one_source_can_be_read(
    backends: &Vec<Backend>,
    view: &LogicalView,
    r: ViewResolution,
)
    requires
        call_ensures(resolve_view, (backends, view), r),
    ensures
        r.status == ViewStatus::Disabled <==> !view.enabled,
        r.status == ViewStatus::Active <==> view.enabled && exists|i: int|
            0 <= i < view@.inputs.len() && available(
                order::models(backends@),
                (#[trigger] view@.inputs[i]).backend,
            ),
        r.resolved_sources@.len() + r.skipped_sources@.len() == view@.inputs.len(),
{
    let all = order::models(backends@);
    let inputs = view@.inputs;
    every_input_is_accounted_for(all, inputs);
    only_available_sources_are_read(all, inputs);
    if resolved(all, inputs).len() > 0 {
        let input = resolved(all, inputs)[0];
        let i = choose|i: int| 0 <= i < inputs.len() && inputs[i] == input;
        assert(available(all, inputs[i].backend));
    }
    if exists|i: int|
        0 <= i < inputs.len() && available(all, (#[trigger] inputs[i]).backend) {
        let i = choose|i: int|
            0 <= i < inputs.len() && available(all, (#[trigger] inputs[i]).backend);
        assert(accounted_for(all, inputs, i, inputs[i]));
    }
    assert(order::models(r.resolved_sources@).len() == r.resolved_sources@.len());
    assert(order::models(r.skipped_sources@).len() == r.skipped_sources@.len());
}

/// What the query of an input begins with where its rows tell their source: the name of the
/// backend as a literal, under the name of the source column.
pub open spec fn source_head(backend: Seq<char>, column: Seq<char>) -> Seq<char> {
    "SELECT "@ + quote::quoted_literal(backend) + " AS "@ + quote::quoted_ident(column) + ", "@
}

/// Where a view has a source column, the query of each of its inputs begins by selecting the
/// name of the backend of that input under the name of the column, whether the view declares
/// columns or not. Behind that it goes on as it would without the source column.
pub proof fn every_row_tells_its_source(
    view: ViewModel,
    plain: ViewModel,
    input: InputModel,
    column: Seq<char>,
)
    requires
        view.source_column == Some(column),
        plain == (ViewModel { source_column: None, ..view }),
    ensures
        source_head(input.backend, column).is_prefix_of(branch(view, input)),
        "SELECT "@.is_prefix_of(branch(plain, input)),
        branch(view, input).skip(source_head(input.backend, column).len() as int) == branch(
            plain,
            input,
        ).skip("SELECT "@.len() as int),
{
    let head = source_head(input.backend, column);
    let start = "SELECT "@;
    assert(projected_columns(view, input) =~= projected_columns(plain, input));
    assert(branch(view, input).take(head.len() as int) =~= head);
    assert(branch(plain, input).take(start.len() as int) =~= start);
    assert(branch(view, input).skip(head.len() as int) =~= branch(plain, input).skip(
        start.len() as int,
    ));
}

/// A view that declares no columns reads all of them. For each column that a view declares,
/// one more item is selected, behind those of the columns in front.
pub proof fn every_declared_column_is_selected(
    view: ViewModel,
    shorter: ViewModel,
    input: InputModel,
)
    requires
        view.source_column is None,
        view.columns.len() > 0 ==> shorter == (ViewModel {
            columns: view.columns.drop_last(),
            ..view
        }),
    ensures
        view.columns.len() == 0 ==> branch(view, input) == "SELECT * FROM "@ + relation_path(input),
        view.columns.len() == 1 ==> branch(view, input) == "SELECT "@ + projected(
            input,
            view.columns[0],
        ) + " FROM "@ + relation_path(input),
        view.columns.len() > 1 ==> ({
            let end = " FROM "@ + relation_path(input);
            let before = branch(shorter, input);
            branch(view, input) == before.take(before.len() - end.len()) + ", "@ + projected(
                input,
                view.columns.last(),
            ) + end
        }),
{
    let n = view.columns.len();
    let end = " FROM "@ + relation_path(input);
    reveal_strlit("SELECT * FROM ");
    reveal_strlit("SELECT ");
    reveal_strlit("*");
    reveal_strlit(" FROM ");
    if n == 0 {
        assert(branch(view, input) =~= "SELECT * FROM "@ + relation_path(input));
    } else {
        let all = projected_columns(view, input);
        let some = projected_columns(shorter, input);
        assert(all.drop_last() =~= some);
        assert(all.last() == projected(input, view.columns.last()));
        if n == 1 {
            assert(branch(view, input) =~= "SELECT "@ + projected(input, view.columns[0]) + end);
        } else {
            let before = branch(shorter, input);
            assert(before =~= "SELECT "@ + text::joined(some, ", "@) + end);
            assert(before.take(before.len() - end.len()) =~= "SELECT "@ + text::joined(
                some,
                ", "@,
            ));
            assert(branch(view, input) =~= before.take(before.len() - end.len()) + ", "@
                + projected(input, view.columns.last()) + end);
        }
    }
}

/// A declared column is read from the physical column that the input maps it to, or from the
/// column of its own name where the input maps it to none. It is cast to the declared type and
/// has the declared name.
pub proof fn a_column_is_read_where_it_is_mapped(
    input: InputModel,
    column: columns::Entry,
    k: int,
)
    requires
        order::strictly_sorted(columns::names(input.columns)),
    ensures
        0 <= k < input.columns.len() && input.columns[k].0 == column.0 ==> ("CAST("@
            + quote::quoted_ident(input.columns[k].1)
            + " AS "@ + column.1 + ") AS "@).is_prefix_of(projected(input, column)),
        (forall|j: int| 0 <= j < input.columns.len() ==> (#[trigger] input.columns[j]).0
            != column.0) ==> ("CAST("@ + quote::quoted_ident(column.0) + " AS "@ + column.1
            + ") AS "@).is_prefix_of(projected(input, column)),
        (") AS "@ + quote::quoted_ident(column.0)).is_suffix_of(projected(input, column)),
{
    columns::lookup_finds_the_entry(input.columns, column.0, k);
    let mapped = 0 <= k < input.columns.len() && input.columns[k].0 == column.0;
    let one = "CAST("@ + quote::quoted_ident(input.columns[k].1) + " AS "@ + column.1 + ") AS "@;
    let own = "CAST("@ + quote::quoted_ident(column.0) + " AS "@ + column.1 + ") AS "@;
    let end = ") AS "@ + quote::quoted_ident(column.0);
    let whole = projected(input, column);
    if mapped {
        assert(whole.take(one.len() as int) =~= one);
    }
    if forall|j: int| 0 <= j < input.columns.len() ==> (#[trigger] input.columns[j]).0
        != column.0 {
        assert(whole.take(own.len() as int) =~= own);
    }
    assert(whole.skip(whole.len() - end.len()) =~= end);
}

/// An input reads its relation from its backend: a relation of one part, or of two with a dot
/// between them, has each of its parts quoted, behind the name of the backend.
pub proof fn an_input_reads_its_own_relation(
    view: ViewModel,
    input: InputModel,
    schema: Seq<char>,
    table: Seq<char>,
)
    requires
        !schema.contains('.'),
        !table.contains('.'),
    ensures
        input.relation == table ==> (" FROM "@ + quote::quoted_ident(input.backend) + "."@
            + quote::quoted_ident(table)).is_suffix_of(branch(view, input)),
        input.relation == schema + seq!['.'] + table ==> (" FROM "@ + quote::quoted_ident(
            input.backend,
        ) + "."@ + quote::quoted_ident(schema) + "."@ + quote::quoted_ident(
            table,
        )).is_suffix_of(branch(view, input)),
{
    let whole = branch(view, input);
    let parts = quoted_parts(input.relation);
    if input.relation == table {
        text::lemma_one_piece(table, '.');
        assert(parts =~= seq![quote::quoted_ident(table)]);
        let end = " FROM "@ + quote::quoted_ident(input.backend) + "."@ + quote::quoted_ident(
            table,
        );
        assert(whole.skip(whole.len() - end.len()) =~= end);
    }
    if input.relation == schema + seq!['.'] + table {
        text::lemma_two_pieces(schema, table, '.');
        assert(parts =~= seq![quote::quoted_ident(schema), quote::quoted_ident(table)]);
        assert(parts.drop_last() =~= seq![quote::quoted_ident(schema)]);
        assert(text::joined(parts, "."@) == quote::quoted_ident(schema) + "."@
            + quote::quoted_ident(table)) by {
            reveal_with_fuel(text::joined, 2);
        }
        let end = " FROM "@ + quote::quoted_ident(input.backend) + "."@ + quote::quoted_ident(
            schema,
        ) + "."@ + quote::quoted_ident(table);
        assert(whole.skip(whole.len() - end.len()) =~= end);
    }
}

/// What the statements that create a view begin with: the schema is created where it is not
/// there, and the view in it.
pub open spec fn statement_head(view: ViewModel) -> Seq<char> {
    "CREATE SCHEMA IF NOT EXISTS "@ + quote::quoted_ident(view.schema) + ";\nCREATE VIEW "@
        + quote::quoted_ident(view.schema) + "."@ + quote::quoted_ident(view.name) + " AS\n"@
}

/// A view over one input is created as the query of that input, under its own name in its own
/// schema. A further input adds its query behind the others, put together with them by name
/// or by place, as the view says.
pub proof fn every_input_adds_its_query(
    view: &LogicalView,
    inputs: &Vec<ViewInput>,
    fewer: &Vec<ViewInput>,
    sql: String,
    before: String,
)
    requires
        call_ensures(view_sql, (view, inputs), sql),
        call_ensures(view_sql, (view, fewer), before),
        inputs@.len() > 0,
        order::models(fewer@) == order::models(inputs@).drop_last(),
    ensures
        inputs@.len() == 1 ==> sql@ == statement_head(view@) + branch(view@, inputs@[0]@) + ";"@,
        inputs@.len() > 1 && view.mode == ViewMode::UnionAll ==> sql@ == before@.drop_last()
            + "\nUNION ALL\n"@ + branch(view@, inputs@.last()@) + ";"@,
        inputs@.len() > 1 && view.mode == ViewMode::UnionAllByName ==> sql@ == before@.drop_last()
            + "\nUNION ALL BY NAME\n"@ + branch(view@, inputs@.last()@) + ";"@,
{
    let models = order::models(inputs@);
    let all = branches(view@, models);
    let some = branches(view@, order::models(fewer@));
    assert(models.last() == inputs@.last()@);
    assert(models[0] == inputs@[0]@);
    assert(all.drop_last() =~= some);
    assert(all.last() == branch(view@, inputs@.last()@));
    reveal_strlit(";");
    assert(sql@ =~= statement_head(view@) + text::joined(all, combination(view@.mode)) + ";"@);
    if inputs@.len() > 1 {
        assert(before@ =~= statement_head(view@) + text::joined(some, combination(view@.mode))
            + ";"@);
        assert(before@.drop_last() =~= statement_head(view@) + text::joined(
            some,
            combination(view@.mode),
        ));
        assert(sql@ =~= before@.drop_last() + combination(view@.mode) + branch(
            view@,
            inputs@.last()@,
        ) + ";"@);
    }
}

/// A view that is disabled, or of which no input can be read and that skips what is missing,
/// is created by no statement. One that skips what is missing and has an input left is created
/// as the one that needs all of its inputs and names only those that can be read.
pub proof fn skipping_is_leaving_out(
    backends: &Vec<Backend>,
    view: &LogicalView,
    strict: &LogicalView,
    r: Result<Option<String>, ViewError>,
    s: Result<Option<String>, ViewError>,
)
    requires
        call_ensures(compile_view, (backends, view), r),
        call_ensures(compile_view, (backends, strict), s),
        view.missing_source_policy == MissingSourcePolicy::Skip,
        strict@ == (ViewModel {
            missing_source_policy: MissingSourcePolicy::Error,
            inputs: resolved(order::models(backends@), view@.inputs),
            ..view@
        }),
    ensures
        compiled(r) == compiled(s),
        !view.enabled || strict@.inputs.len() == 0 ==> r matches Ok(None),
        view.enabled && strict@.inputs.len() > 0 ==> (r matches Ok(Some(sql)) && statement_head(
            view@,
        ).is_prefix_of(sql@)),
{
    let all = order::models(backends@);
    let kept = resolved(all, view@.inputs);
    only_available_sources_are_read(all, view@.inputs);
    assert forall|i: int| 0 <= i < kept.len() implies available(
        all,
        (#[trigger] kept[i]).backend,
    ) by {
    }
    lemma_nothing_skipped(all, kept);
    assert(branches(view@, kept) =~= branches(strict@, kept)) by {
        assert forall|i: int| 0 <= i < kept.len() implies branches(view@, kept)[i] == branches(
            strict@,
            kept,
        )[i] by {
            assert(projected_columns(view@, kept[i]) =~= projected_columns(strict@, kept[i]));
        }
    }
    let whole = view_statements(view@, kept);
    let head = statement_head(view@);
    assert(whole.take(head.len() as int) =~= head);
}

/// The error of a view that lacks an input it needs names the view in its schema and the first
/// input that is missing, with the reason why it is.
pub proof fn the_first_missing_source_is_reported(
    backends: &Vec<Backend>,
    view: &LogicalView,
    r: Result<Option<String>, ViewError>,
    k: int,
)
    requires
        call_ensures(compile_view, (backends, view), r),
        view.enabled,
        view.missing_source_policy == MissingSourcePolicy::Error,
        0 <= k < view@.inputs.len(),
        !available(order::models(backends@), view@.inputs[k].backend),
        forall|i: int|
            0 <= i < k ==> available(
                order::models(backends@),
                (#[trigger] view@.inputs[i]).backend,
            ),
    ensures
        r matches Err(error) && error.view@ == view.schema@ + "."@ + view.name@ && error.backend@
            == view@.inputs[k].backend && missing(
            order::models(backends@),
            view@.inputs[k].backend,
        ) == Some(error.reason),
{
    let all = order::models(backends@);
    let inputs = view@.inputs;
    every_input_is_accounted_for(all, inputs);
    assert(accounted_for(all, inputs, k, inputs[k]));
    let front = inputs.take(k);
    assert forall|i: int| 0 <= i < front.len() implies available(
        all,
        (#[trigger] front[i]).backend,
    ) by {
        assert(front[i] == inputs[i]);
    }
    lemma_nothing_skipped(all, front);
    assert(skipped(all, inputs)[0] == (inputs[k].backend, missing(all, inputs[k].backend)->0));
}

/// The report of the error begins with the view and ends with the backend, and tells a backend
/// that is disabled from one that nobody has registered.
pub proof fn view_errors_name_view_backend_and_reason(error: &ViewError, r: String)
    requires
        call_ensures(ViewError::message, (error,), r),
    ensures
        ("view "@ + error.view@ + " requires "@).is_prefix_of(r@),
        (" backend "@ + error.backend@).is_suffix_of(r@),
        r@.len() == "view "@.len() + error.view@.len() + " requires "@.len() + (
        if error.reason == SkipReason::Disabled {
            "disabled"@.len()
        } else {
            "unregistered"@.len()
        }) + " backend "@.len() + error.backend@.len(),
        error.reason == SkipReason::Disabled ==> r@.skip(
            ("view "@ + error.view@ + " requires "@).len() as int,
        ).take("disabled"@.len() as int) == "disabled"@,
        error.reason == SkipReason::NotRegistered ==> r@.skip(
            ("view "@ + error.view@ + " requires "@).len() as int,
        ).take("unregistered"@.len() as int) == "unregistered"@,
{
    reveal_strlit("view ");
    reveal_strlit(" requires ");
    reveal_strlit(" backend ");
    reveal_strlit("disabled");
    reveal_strlit("unregistered");
    reveal_strlit(" requires unregistered backend ");
    reveal_strlit(" requires disabled backend ");
    let head = "view "@ + error.view@ + " requires "@;
    let end = " backend "@ + error.backend@;
    assert(r@.take(head.len() as int) =~= head);
    assert(r@.skip(r@.len() - end.len()) =~= end);
    if error.reason == SkipReason::Disabled {
        assert(r@.skip(head.len() as int).take(8) =~= "disabled"@);
    } else {
        assert(r@.skip(head.len() as int).take(12) =~= "unregistered"@);
    }
}

/// Each reason and each status has a word of its own.
pub proof fn words_tell_reasons_and_statuses_apart(
    a: SkipReason,
    b: SkipReason,
    s: ViewStatus,
    t: ViewStatus,
    wa: &'static str,
    wb: &'static str,
    ws: &'static str,
    wt: &'static str,
)
    requires
        call_ensures(SkipReason::text, (&a,), wa),
        call_ensures(SkipReason::text, (&b,), wb),
        call_ensures(ViewStatus::text, (&s,), ws),
        call_ensures(ViewStatus::text, (&t,), wt),
    ensures
        wa@ == wb@ <==> a == b,
        ws@ == wt@ <==> s == t,
        a == SkipReason::Disabled <==> wa@ == "disabled"@,
        a == SkipReason::NotRegistered <==> wa@ == "not_registered"@,
        s == ViewStatus::Active <==> ws@ == "active"@,
        s == ViewStatus::Disabled <==> ws@ == "disabled"@,
        s == ViewStatus::Unavailable <==> ws@ == "unavailable"@,
{
    reveal_strlit("disabled");
    reveal_strlit("not_registered");
    reveal_strlit("active");
    reveal_strlit("unavailable");
    assert("disabled"@.len() == 8 && "not_registered"@.len() == 14 && "active"@.len() == 6
        && "unavailable"@.len() == 11);
}

} // verus!
