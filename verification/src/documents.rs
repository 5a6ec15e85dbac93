//! The documents that describe backends and views.
use vstd::prelude::*;

use crate::columns;
use crate::columns::ColumnMap;
use crate::config;
use crate::config::{
    Backend, BackendModel, BackendType, Config, InputModel, LogicalView, MissingSourcePolicy,
    ViewInput, ViewMode, ViewModel,
};
use crate::json;
use crate::json::{Items, Json, JsonModel, Members};
use crate::order;
use crate::views;
use crate::views::{SkipReason, SkippedSource};

verus! {

// ---------------------------------------------------------------------------
// Words
// ---------------------------------------------------------------------------

pub open spec fn kind_word(kind: BackendType) -> Seq<char> {
    match kind {
        BackendType::Sqlite => "sqlite"@,
        BackendType::Duckdb => "duckdb"@,
        BackendType::Parquet => "parquet"@,
    }
}

/// The word for a kind of backend.
pub fn kind_name(kind: BackendType) -> (r: &'static str)
    ensures
        r@ == kind_word(kind),
{
    match kind {
        BackendType::Sqlite => "sqlite",
        BackendType::Duckdb => "duckdb",
        BackendType::Parquet => "parquet",
    }
}

pub open spec fn mode_word(mode: ViewMode) -> Seq<char> {
    match mode {
        ViewMode::UnionAll => "union_all"@,
        ViewMode::UnionAllByName => "union_all_by_name"@,
    }
}

/// The word for a way to put inputs together.
pub fn mode_name(mode: ViewMode) -> (r: &'static str)
    ensures
        r@ == mode_word(mode),
{
    match mode {
        ViewMode::UnionAll => "union_all",
        ViewMode::UnionAllByName => "union_all_by_name",
    }
}

pub open spec fn policy_word(policy: MissingSourcePolicy) -> Seq<char> {
    match policy {
        MissingSourcePolicy::Error => "error"@,
        MissingSourcePolicy::Skip => "skip"@,
    }
}

/// The word for a policy.
pub fn policy_name(policy: MissingSourcePolicy) -> (r: &'static str)
    ensures
        r@ == policy_word(policy),
{
    match policy {
        MissingSourcePolicy::Error => "error",
        MissingSourcePolicy::Skip => "skip",
    }
}

// ---------------------------------------------------------------------------
// Backends
// ---------------------------------------------------------------------------

/// The members of the document of a backend. Only that of a Parquet backend has the relation
/// that its files are exposed under.
pub open spec fn backend_members(b: BackendModel) -> Seq<(Seq<char>, JsonModel)> {
    seq![
        ("name"@, JsonModel::Text(b.name)),
        ("type"@, JsonModel::Text(kind_word(b.kind))),
        ("path"@, JsonModel::Text(b.path)),
    ] + (if b.kind == BackendType::Parquet {
        seq![("relation"@, JsonModel::Text(config::exposed_relation(b)))]
    } else {
        Seq::empty()
    }) + seq![("enabled"@, JsonModel::Bool(b.enabled))]
}

pub open spec fn backend_document(b: BackendModel) -> JsonModel {
    JsonModel::Object(backend_members(b))
}

/// The document of a backend.
pub fn backend_json(backend: &Backend) -> (r: Json)
    ensures
        r@ == backend_document(backend@),
{
    let mut members = Members::new();
    members.put("name", json::text(backend.name.as_str()));
    members.put("type", json::text(kind_name(backend.kind)));
    members.put("path", json::text(backend.path.as_str()));
    if backend.kind == BackendType::Parquet {
        members.put("relation", json::text(backend.relation()));
    }
    members.put("enabled", Json::Bool(backend.enabled));
    assert(members@ =~= backend_members(backend@));
    members.object()
}

pub open spec fn backend_documents(backends: Seq<BackendModel>) -> Seq<JsonModel> {
    backends.map_values(|b: BackendModel| backend_document(b))
}

/// The documents of backends, as an array.
pub fn backends_json(backends: &Vec<Backend>) -> (r: Json)
    ensures
        r@ == JsonModel::Array(backend_documents(order::models(backends@))),
{
    let ghost models = order::models(backends@);
    let ghost all = backend_documents(models);
    let mut items = Items::new();
    let mut i: usize = 0;
    while i < backends.len()
        invariant
            i <= backends@.len(),
            models == order::models(backends@),
            all == backend_documents(models),
            items@ == all.take(i as int),
        decreases backends@.len() - i,
    {
        assert(models[i as int] == backends@[i as int]@);
        let document = backend_json(&backends[i]);
        assert(all[i as int] == document@);
        items.put(document);
        assert(all.take(i + 1) =~= all.take(i as int).push(all[i as int]));
        i += 1;
    }
    assert(all.take(all.len() as int) =~= all);
    items.array()
}

// ---------------------------------------------------------------------------
// Views
// ---------------------------------------------------------------------------

pub open spec fn column_members(entries: Seq<columns::Entry>) -> Seq<(Seq<char>, JsonModel)> {
    entries.map_values(|entry: columns::Entry| (entry.0, JsonModel::Text(entry.1)))
}

fn columns_json(columns: &ColumnMap) -> (r: Json)
    ensures
        r@ == JsonModel::Object(column_members(columns@)),
{
    let ghost all = column_members(columns@);
    let mut members = Members::new();
    let mut i: usize = 0;
    while i < columns.len()
        invariant
            i <= columns@.len(),
            all == column_members(columns@),
            members@ == all.take(i as int),
        decreases columns@.len() - i,
    {
        members.put(columns.name_at(i), json::text(columns.value_at(i)));
        assert(members@ =~= all.take(i + 1));
        i += 1;
    }
    assert(all.take(all.len() as int) =~= all);
    members.object()
}

pub open spec fn input_document(input: InputModel) -> JsonModel {
    JsonModel::Object(
        seq![
            ("backend"@, JsonModel::Text(input.backend)),
            ("relation"@, JsonModel::Text(input.relation)),
            ("columns"@, JsonModel::Object(column_members(input.columns))),
        ],
    )
}

fn input_json(input: &ViewInput) -> (r: Json)
    ensures
        r@ == input_document(input@),
{
    let mut members = Members::new();
    members.put("backend", json::text(input.backend.as_str()));
    members.put("relation", json::text(input.relation.as_str()));
    members.put("columns", columns_json(&input.columns));
    assert(members@ =~= input_document(input@)->Object_0);
    members.object()
}

pub open spec fn input_documents(inputs: Seq<InputModel>) -> Seq<JsonModel> {
    inputs.map_values(|input: InputModel| input_document(input))
}

/// The document of a view.
pub open spec fn view_document(view: ViewModel) -> JsonModel {
    JsonModel::Object(
        seq![
            ("name"@, JsonModel::Text(view.name)),
            ("schema"@, JsonModel::Text(view.schema)),
            ("qualified_name"@, JsonModel::Text(config::qualified(view))),
            ("enabled"@, JsonModel::Bool(view.enabled)),
            ("mode"@, JsonModel::Text(mode_word(view.mode))),
            (
                "missing_source_policy"@,
                JsonModel::Text(policy_word(view.missing_source_policy)),
            ),
            ("source_column"@, json::optional_text(view.source_column)),
            ("columns"@, JsonModel::Object(column_members(view.columns))),
            ("inputs"@, JsonModel::Array(input_documents(view.inputs))),
        ],
    )
}

/// The document of a view.
pub fn view_json(view: &LogicalView) -> (r: Json)
    ensures
        r@ == view_document(view@),
{
    let ghost models = order::models(view.inputs@);
    let ghost all = input_documents(models);
    let mut inputs = Items::new();
    let mut i: usize = 0;
    while i < view.inputs.len()
        invariant
            i <= view.inputs@.len(),
            models == order::models(view.inputs@),
            all == input_documents(models),
            inputs@ == all.take(i as int),
        decreases view.inputs@.len() - i,
    {
        assert(models[i as int] == view.inputs@[i as int]@);
        let document = input_json(&view.inputs[i]);
        assert(all[i as int] == document@);
        inputs.put(document);
        assert(all.take(i + 1) =~= all.take(i as int).push(all[i as int]));
        i += 1;
    }
    assert(all.take(all.len() as int) =~= all);
    let mut members = Members::new();
    members.put("name", json::text(view.name.as_str()));
    members.put("schema", json::text(view.schema.as_str()));
    members.put("qualified_name", Json::Text(view.qualified_name()));
    members.put("enabled", Json::Bool(view.enabled));
    members.put("mode", json::text(mode_name(view.mode)));
    members.put(
        "missing_source_policy",
        json::text(policy_name(view.missing_source_policy)),
    );
    members.put("source_column", json::text_or_null(&view.source_column));
    members.put("columns", columns_json(&view.columns));
    members.put("inputs", inputs.array());
    assert(members@ =~= view_document(view@)->Object_0);
    members.object()
}

pub open spec fn skipped_document(source: (Seq<char>, SkipReason)) -> JsonModel {
    JsonModel::Object(
        seq![
            ("backend"@, JsonModel::Text(source.0)),
            ("reason"@, JsonModel::Text(views::reason_text(source.1))),
        ],
    )
}

pub open spec fn skipped_documents(sources: Seq<(Seq<char>, SkipReason)>) -> Seq<JsonModel> {
    sources.map_values(|source: (Seq<char>, SkipReason)| skipped_document(source))
}

fn skipped_json(sources: &Vec<SkippedSource>) -> (r: Json)
    ensures
        r@ == JsonModel::Array(skipped_documents(order::models(sources@))),
{
    let ghost models = order::models(sources@);
    let ghost all = skipped_documents(models);
    let mut items = Items::new();
    let mut i: usize = 0;
    while i < sources.len()
        invariant
            i <= sources@.len(),
            models == order::models(sources@),
            all == skipped_documents(models),
            items@ == all.take(i as int),
        decreases sources@.len() - i,
    {
        let source = &sources[i];
        assert(models[i as int] == source@);
        let mut members = Members::new();
        members.put("backend", json::text(source.backend.as_str()));
        members.put("reason", json::text(source.reason.text()));
        assert(members@ =~= skipped_document(source@)->Object_0);
        let document = members.object();
        assert(all[i as int] == document@);
        items.put(document);
        assert(all.take(i + 1) =~= all.take(i as int).push(all[i as int]));
        i += 1;
    }
    assert(all.take(all.len() as int) =~= all);
    items.array()
}

pub open spec fn source_names(inputs: Seq<InputModel>) -> Seq<JsonModel> {
    inputs.map_values(|input: InputModel| JsonModel::Text(input.backend))
}

/// The document of what a view is resolved to among backends.
pub open spec fn resolution_document(backends: Seq<BackendModel>, view: ViewModel) -> JsonModel {
    JsonModel::Object(
        seq![
            (
                "status"@,
                JsonModel::Text(views::status_text(views::view_status(backends, view))),
            ),
            (
                "resolved_sources"@,
                JsonModel::Array(source_names(views::resolved(backends, view.inputs))),
            ),
            (
                "skipped_sources"@,
                JsonModel::Array(skipped_documents(views::skipped(backends, view.inputs))),
            ),
        ],
    )
}

/// The document of what a view is resolved to.
pub fn resolution_json(backends: &Vec<Backend>, view: &LogicalView) -> (r: Json)
    ensures
        r@ == resolution_document(order::models(backends@), view@),
{
    let resolution = views::resolve_view(backends, view);
    let ghost models = order::models(resolution.resolved_sources@);
    let ghost all = source_names(models);
    let mut sources = Items::new();
    let mut i: usize = 0;
    while i < resolution.resolved_sources.len()
        invariant
            i <= resolution.resolved_sources@.len(),
            models == order::models(resolution.resolved_sources@),
            all == source_names(models),
            sources@ == all.take(i as int),
        decreases resolution.resolved_sources@.len() - i,
    {
        assert(models[i as int] == resolution.resolved_sources@[i as int]@);
        sources.put(json::text(resolution.resolved_sources[i].backend.as_str()));
        assert(sources@ =~= all.take(i + 1));
        i += 1;
    }
    assert(all.take(all.len() as int) =~= all);
    let mut members = Members::new();
    members.put("status", json::text(resolution.status.text()));
    members.put("resolved_sources", sources.array());
    members.put("skipped_sources", skipped_json(&resolution.skipped_sources));
    assert(members@ =~= resolution_document(order::models(backends@), view@)->Object_0);
    members.object()
}

/// The document of a view with what it is resolved to.
pub open spec fn resolved_view_document(backends: Seq<BackendModel>, view: ViewModel) -> JsonModel {
    JsonModel::Object(
        seq![
            ("view"@, view_document(view)),
            ("resolution"@, resolution_document(backends, view)),
        ],
    )
}

fn resolved_view_json(backends: &Vec<Backend>, view: &LogicalView) -> (r: Json)
    ensures
        r@ == resolved_view_document(order::models(backends@), view@),
{
    let mut members = Members::new();
    members.put("view", view_json(view));
    members.put("resolution", resolution_json(backends, view));
    assert(members@ =~= resolved_view_document(order::models(backends@), view@)->Object_0);
    members.object()
}

pub open spec fn resolved_view_documents(
    backends: Seq<BackendModel>,
    list: Seq<ViewModel>,
) -> Seq<JsonModel> {
    list.map_values(|view: ViewModel| resolved_view_document(backends, view))
}

/// The documents of the views of a configuration, each with what it is resolved to, as an
/// array.
pub fn views_json(config: &Config) -> (r: Json)
    ensures
        r@ == JsonModel::Array(resolved_view_documents(config@.backends, config@.views)),
{
    let ghost models = config@.views;
    let ghost all = resolved_view_documents(config@.backends, models);
    let mut items = Items::new();
    let mut i: usize = 0;
    while i < config.views.len()
        invariant
            i <= config.views@.len(),
            models == order::models(config.views@),
            all == resolved_view_documents(order::models(config.backends@), models),
            items@ == all.take(i as int),
        decreases config.views@.len() - i,
    {
        assert(models[i as int] == config.views@[i as int]@);
        let document = resolved_view_json(&config.backends, &config.views[i]);
        assert(all[i as int] == document@);
        items.put(document);
        assert(all.take(i + 1) =~= all.take(i as int).push(all[i as int]));
        i += 1;
    }
    assert(all.take(all.len() as int) =~= all);
    items.array()
}

// ---------------------------------------------------------------------------
// Laws
// ---------------------------------------------------------------------------

/// Each kind of backend, each way to put inputs together and each policy has a word of its own.
pub proof fn words_tell_kinds_modes_and_policies_apart(
    k: BackendType,
    m: ViewMode,
    p: MissingSourcePolicy,
    wk: &'static str,
    wm: &'static str,
    wp: &'static str,
)
    requires
        call_ensures(kind_name, (k,), wk),
        call_ensures(mode_name, (m,), wm),
        call_ensures(policy_name, (p,), wp),
    ensures
        k == BackendType::Sqlite <==> wk@ == "sqlite"@,
        k == BackendType::Duckdb <==> wk@ == "duckdb"@,
        k == BackendType::Parquet <==> wk@ == "parquet"@,
        m == ViewMode::UnionAll <==> wm@ == "union_all"@,
        m == ViewMode::UnionAllByName <==> wm@ == "union_all_by_name"@,
        p == MissingSourcePolicy::Error <==> wp@ == "error"@,
        p == MissingSourcePolicy::Skip <==> wp@ == "skip"@,
{
    reveal_strlit("sqlite");
    reveal_strlit("duckdb");
    reveal_strlit("parquet");
    reveal_strlit("union_all");
    reveal_strlit("union_all_by_name");
    reveal_strlit("error");
    reveal_strlit("skip");
    assert("sqlite"@[0] != "duckdb"@[0] && "sqlite"@[0] != "parquet"@[0] && "duckdb"@[0]
        != "parquet"@[0]);
    assert("union_all"@.len() == 9 && "union_all_by_name"@.len() == 17);
    assert("error"@.len() == 5 && "skip"@.len() == 4);
}

/// The document of a backend tells its name, its kind, its path and whether it is enabled, and,
/// exactly where it is Parquet, the relation that it is read as.
pub proof fn backends_are_told_by_their_parts(backend: &Backend, kind: &'static str, r: Json)
    requires
        call_ensures(backend_json, (backend,), r),
        call_ensures(kind_name, (backend.kind,), kind),
    ensures
        json::has_member(r@, "name"@, JsonModel::Text(backend.name@)),
        json::has_member(r@, "type"@, JsonModel::Text(kind@)),
        json::has_member(r@, "path"@, JsonModel::Text(backend.path@)),
        json::has_member(r@, "enabled"@, JsonModel::Bool(backend.enabled)),
        backend.kind == BackendType::Parquet ==> json::has_member(
            r@,
            "relation"@,
            JsonModel::Text(config::exposed_relation(backend@)),
        ),
        json::member_count(r@) == (if backend.kind == BackendType::Parquet {
            5int
        } else {
            4int
        }),
{
    if backend.kind == BackendType::Parquet {
        reveal_strlit("name");
        reveal_strlit("type");
        reveal_strlit("path");
        reveal_strlit("relation");
        reveal_strlit("enabled");
        let members = r@->Object_0;
        assert(members[0].0 == "name"@);
        assert(members[1].0 == "type"@);
        assert(members[2].0 == "path"@);
        assert(members[3].0 == "relation"@);
        assert(members[4].0 == "enabled"@);
        assert("name"@.len() == 4);
        assert("type"@.len() == 4);
        assert("path"@.len() == 4);
        assert("relation"@.len() == 8);
        assert("enabled"@.len() == 7);
        assert("name"@[0] != "type"@[0]);
        assert("name"@[0] != "path"@[0]);
        assert("type"@[0] != "path"@[0]);
        assert(json::names_differ(members));
        json::lemma_member_is_there(members, 0);
        json::lemma_member_is_there(members, 1);
        json::lemma_member_is_there(members, 2);
        json::lemma_member_is_there(members, 3);
        json::lemma_member_is_there(members, 4);
    } else {
        reveal_strlit("name");
        reveal_strlit("type");
        reveal_strlit("path");
        reveal_strlit("enabled");
        let members = r@->Object_0;
        assert(members[0].0 == "name"@);
        assert(members[1].0 == "type"@);
        assert(members[2].0 == "path"@);
        assert(members[3].0 == "enabled"@);
        assert("name"@.len() == 4);
        assert("type"@.len() == 4);
        assert("path"@.len() == 4);
        assert("enabled"@.len() == 7);
        assert("name"@[0] != "type"@[0]);
        assert("name"@[0] != "path"@[0]);
        assert("type"@[0] != "path"@[0]);
        assert(json::names_differ(members));
        json::lemma_member_is_there(members, 0);
        json::lemma_member_is_there(members, 1);
        json::lemma_member_is_there(members, 2);
        json::lemma_member_is_there(members, 3);
    }
}

/// Backends become an array with one document for each, in their order: that of the backend on
/// its own.
pub proof fn every_backend_is_listed_in_place(
    backends: &Vec<Backend>,
    i: int,
    one: Json,
    r: Json,
)
    requires
        call_ensures(backends_json, (backends,), r),
    ensures
        r@ matches JsonModel::Array(list) && list.len() == backends@.len() && (0 <= i
            < backends@.len() && call_ensures(backend_json, (&backends@[i],), one) ==> list[i]
            == one@),
{
}

/// Whether a document gives each column name what it stands for, in the order of the names, and
/// has nothing else.
pub open spec fn tells_columns(document: JsonModel, entries: Seq<columns::Entry>) -> bool {
    document matches JsonModel::Object(members) && members.len() == entries.len() && (forall|i: int|
        0 <= i < entries.len() ==> (#[trigger] members[i]).0 == entries[i].0 && members[i].1
            == JsonModel::Text(entries[i].1))
}

/// Whether a document tells the backend, the relation and the columns of an input.
pub open spec fn tells_input(document: JsonModel, input: InputModel) -> bool {
    &&& json::has_member(document, "backend"@, JsonModel::Text(input.backend))
    &&& json::has_member(document, "relation"@, JsonModel::Text(input.relation))
    &&& exists|columns: JsonModel| #[trigger]
        json::has_member(document, "columns"@, columns) && tells_columns(columns, input.columns)
    &&& json::member_count(document) == 3
}

proof fn lemma_input_is_told(input: InputModel)
    ensures
        tells_input(input_document(input), input),
{
    reveal_strlit("backend");
    reveal_strlit("relation");
    reveal_strlit("columns");
    let members = input_document(input)->Object_0;
    assert(members[0].0 == "backend"@);
    assert(members[1].0 == "relation"@);
    assert(members[2].0 == "columns"@);
    assert("backend"@.len() == 7);
    assert("relation"@.len() == 8);
    assert("columns"@.len() == 7);
    assert("backend"@[0] != "columns"@[0]);
    assert(json::names_differ(members));
    json::lemma_member_is_there(members, 0);
    json::lemma_member_is_there(members, 1);
    json::lemma_member_is_there(members, 2);
    let columns = JsonModel::Object(column_members(input.columns));
    assert(json::has_member(input_document(input), "columns"@, columns));
    assert(tells_columns(columns, input.columns));
}

/// The document of a view tells all that it is defined by, and each of its inputs in its place.
pub proof fn views_are_told_by_their_parts(
    view: &LogicalView,
    mode: &'static str,
    policy: &'static str,
    columns: JsonModel,
    inputs: Seq<JsonModel>,
    i: int,
    r: Json,
)
    requires
        call_ensures(view_json, (view,), r),
        call_ensures(mode_name, (view.mode,), mode),
        call_ensures(policy_name, (view.missing_source_policy,), policy),
        json::has_member(r@, "columns"@, columns),
        json::has_member(r@, "inputs"@, JsonModel::Array(inputs)),
    ensures
        json::has_member(r@, "name"@, JsonModel::Text(view.name@)),
        json::has_member(r@, "schema"@, JsonModel::Text(view.schema@)),
        json::has_member(
            r@,
            "qualified_name"@,
            JsonModel::Text(view.schema@ + "."@ + view.name@),
        ),
        json::has_member(r@, "enabled"@, JsonModel::Bool(view.enabled)),
        json::has_member(r@, "mode"@, JsonModel::Text(mode@)),
        json::has_member(r@, "missing_source_policy"@, JsonModel::Text(policy@)),
        view.source_column matches Some(column) ==> json::has_member(
            r@,
            "source_column"@,
            JsonModel::Text(column@),
        ),
        view.source_column is None ==> json::has_member(r@, "source_column"@, JsonModel::Null),
        tells_columns(columns, view@.columns),
        inputs.len() == view@.inputs.len(),
        0 <= i < inputs.len() ==> tells_input(inputs[i], view@.inputs[i]),
        json::member_count(r@) == 9,
{
    reveal_strlit("name");
    reveal_strlit("schema");
    reveal_strlit("qualified_name");
    reveal_strlit("enabled");
    reveal_strlit("mode");
    reveal_strlit("missing_source_policy");
    reveal_strlit("source_column");
    reveal_strlit("columns");
    reveal_strlit("inputs");
    let members = r@->Object_0;
    assert(members[0].0 == "name"@);
    assert(members[1].0 == "schema"@);
    assert(members[2].0 == "qualified_name"@);
    assert(members[3].0 == "enabled"@);
    assert(members[4].0 == "mode"@);
    assert(members[5].0 == "missing_source_policy"@);
    assert(members[6].0 == "source_column"@);
    assert(members[7].0 == "columns"@);
    assert(members[8].0 == "inputs"@);
    assert("name"@.len() == 4);
    assert("schema"@.len() == 6);
    assert("qualified_name"@.len() == 14);
    assert("enabled"@.len() == 7);
    assert("mode"@.len() == 4);
    assert("missing_source_policy"@.len() == 21);
    assert("source_column"@.len() == 13);
    assert("columns"@.len() == 7);
    assert("inputs"@.len() == 6);
    assert("name"@[0] != "mode"@[0]);
    assert("schema"@[0] != "inputs"@[0]);
    assert("enabled"@[0] != "columns"@[0]);
    assert(json::names_differ(members));
    json::lemma_member_is_there(members, 0);
    json::lemma_member_is_there(members, 1);
    json::lemma_member_is_there(members, 2);
    json::lemma_member_is_there(members, 3);
    json::lemma_member_is_there(members, 4);
    json::lemma_member_is_there(members, 5);
    json::lemma_member_is_there(members, 6);
    json::lemma_member_is_there(members, 7);
    json::lemma_member_is_there(members, 8);
    assert(columns == members[7].1);
    assert(JsonModel::Array(inputs) == members[8].1);
    if 0 <= i < inputs.len() {
        lemma_input_is_told(view@.inputs[i]);
        assert(inputs[i] == input_document(view@.inputs[i]));
    }
}

/// The document of what a view is resolved to tells its status, the backends of the inputs that
/// are read, in order, and those that are skipped, each with its reason.
pub proof fn resolutions_tell_what_is_read_and_skipped(
    backends: &Vec<Backend>,
    view: &LogicalView,
    read: Seq<JsonModel>,
    skipped: Seq<JsonModel>,
    i: int,
    j: int,
    word: &'static str,
    r: Json,
)
    requires
        call_ensures(resolution_json, (backends, view), r),
        call_ensures(
            views::ViewStatus::text,
            (&views::view_status(order::models(backends@), view@),),
            word,
        ),
        json::has_member(r@, "resolved_sources"@, JsonModel::Array(read)),
        json::has_member(r@, "skipped_sources"@, JsonModel::Array(skipped)),
    ensures
        ({
            let all = order::models(backends@);
            let kept = views::resolved(all, view@.inputs);
            let gone = views::skipped(all, view@.inputs);
            &&& json::has_member(r@, "status"@, JsonModel::Text(word@))
            &&& read.len() == kept.len()
            &&& 0 <= i < kept.len() ==> read[i] == JsonModel::Text(kept[i].backend)
            &&& skipped.len() == gone.len()
            &&& 0 <= j < gone.len() ==> json::has_member(
                skipped[j],
                "backend"@,
                JsonModel::Text(gone[j].0),
            )
            &&& 0 <= j < gone.len() && gone[j].1 == SkipReason::Disabled ==> json::has_member(
                skipped[j],
                "reason"@,
                JsonModel::Text("disabled"@),
            )
            &&& 0 <= j < gone.len() && gone[j].1 == SkipReason::NotRegistered ==> json::has_member(
                skipped[j],
                "reason"@,
                JsonModel::Text("not_registered"@),
            )
            &&& json::member_count(r@) == 3
        }),
{
    let all = order::models(backends@);
    let gone = views::skipped(all, view@.inputs);
    reveal_strlit("status");
    reveal_strlit("resolved_sources");
    reveal_strlit("skipped_sources");
    let members = r@->Object_0;
    assert(members[0].0 == "status"@);
    assert(members[1].0 == "resolved_sources"@);
    assert(members[2].0 == "skipped_sources"@);
    assert("status"@.len() == 6);
    assert("resolved_sources"@.len() == 16);
    assert("skipped_sources"@.len() == 15);
    assert(json::names_differ(members));
    json::lemma_member_is_there(members, 0);
    json::lemma_member_is_there(members, 1);
    json::lemma_member_is_there(members, 2);
    assert(JsonModel::Array(read) == members[1].1);
    assert(JsonModel::Array(skipped) == members[2].1);
    if 0 <= j < gone.len() {
        lemma_skipped_is_told(gone[j]);
        assert(skipped[j] == skipped_document(gone[j]));
    }
}

proof fn lemma_skipped_is_told(source: (Seq<char>, SkipReason))
    ensures
        json::has_member(skipped_document(source), "backend"@, JsonModel::Text(source.0)),
        source.1 == SkipReason::Disabled ==> json::has_member(
            skipped_document(source),
            "reason"@,
            JsonModel::Text("disabled"@),
        ),
        source.1 == SkipReason::NotRegistered ==> json::has_member(
            skipped_document(source),
            "reason"@,
            JsonModel::Text("not_registered"@),
        ),
{
    reveal_strlit("backend");
    reveal_strlit("reason");
    let members = skipped_document(source)->Object_0;
    assert(members[0].0 == "backend"@);
    assert(members[1].0 == "reason"@);
    assert("backend"@.len() == 7);
    assert("reason"@.len() == 6);
    assert(json::names_differ(members));
    json::lemma_member_is_there(members, 0);
    json::lemma_member_is_there(members, 1);
}

/// The views of a configuration become an array with one item for each, in their order, which
/// tells the view and what it is resolved to among the configured backends.
pub proof fn every_view_is_listed_in_place(
    config: &Config,
    i: int,
    view: Json,
    resolution: Json,
    r: Json,
)
    requires
        call_ensures(views_json, (config,), r),
    ensures
        r@ matches JsonModel::Array(list) && list.len() == config.views@.len() && (0 <= i
            < config.views@.len() && call_ensures(view_json, (&config.views@[i],), view)
            && call_ensures(resolution_json, (&config.backends, &config.views@[i]), resolution)
            ==> json::has_member(list[i], "view"@, view@) && json::has_member(
            list[i],
            "resolution"@,
            resolution@,
        ) && json::member_count(list[i]) == 2),
{
    if 0 <= i < config.views@.len() && call_ensures(view_json, (&config.views@[i],), view)
        && call_ensures(resolution_json, (&config.backends, &config.views@[i]), resolution) {
        let list = r@->Array_0;
        assert(config@.views[i] == config.views@[i]@);
        reveal_strlit("view");
        reveal_strlit("resolution");
        let members = list[i]->Object_0;
        assert(members[0].0 == "view"@);
        assert(members[1].0 == "resolution"@);
        assert("view"@.len() == 4);
        assert("resolution"@.len() == 10);
        assert(json::names_differ(members));
        json::lemma_member_is_there(members, 0);
        json::lemma_member_is_there(members, 1);
    }
}

} // verus!
