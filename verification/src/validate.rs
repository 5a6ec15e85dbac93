//! Which configurations are valid.
//!
//! The checks run in a fixed order and stop at the first defect, so each function here
//! says which defect that is. [`valid_config`] says, without any order, which
//! configurations have none.
use vstd::prelude::*;

use crate::columns;
use crate::config;
use crate::config::{
    Backend, BackendModel, BackendType, Config, ConfigModel, ConfigParts, InputModel, LogicalView,
    ViewInput, ViewModel,
};
use crate::defect::{ConfigError, Defect, IdentifierRole};
use crate::order;
use crate::order::Sortable;
use crate::quote;
use crate::text;

verus! {

// ---------------------------------------------------------------------------
// The first defect
// ---------------------------------------------------------------------------

/// The first of two checks that finds something, in order.
pub open spec fn either(first: Option<Defect>, second: Option<Defect>) -> Option<Defect> {
    if first is Some {
        first
    } else {
        second
    }
}

/// What a check finds on the first number from `from` up to `end` on which it finds
/// something.
pub open spec fn first_of(
    from: int,
    end: int,
    check: spec_fn(int) -> Option<Defect>,
) -> Option<Defect>
    decreases end - from,
{
    if from >= end {
        None
    } else {
        either(check(from), first_of(from + 1, end, check))
    }
}

proof fn lemma_first_of_none(from: int, end: int, check: spec_fn(int) -> Option<Defect>)
    ensures
        first_of(from, end, check) is None <==> (forall|i: int|
            from <= i < end ==> #[trigger] check(i) is None),
    decreases end - from,
{
    if from < end {
        lemma_first_of_none(from + 1, end, check);
        if first_of(from, end, check) is None {
            assert forall|i: int| from <= i < end implies #[trigger] check(i) is None by {
                if i > from {
                    assert(from + 1 <= i);
                }
            }
        }
        if forall|i: int| from <= i < end ==> #[trigger] check(i) is None {
            assert(check(from) is None);
        }
    }
}

/// What a check reports.
pub open spec fn reported(r: Result<(), ConfigError>) -> Option<Defect> {
    match r {
        Ok(_) => None,
        Err(error) => Some(error@),
    }
}

// ---------------------------------------------------------------------------
// Identifiers
// ---------------------------------------------------------------------------

/// Whether a character may stand at a place of a name.
pub open spec fn name_char(c: char, place: int) -> bool {
    c == '_' || text::is_letter(c) || (text::is_digit(c) && place > 0)
}

/// The names that match `[A-Za-z_][A-Za-z0-9_]{0,62}`.
pub open spec fn valid_name(name: Seq<char>) -> bool {
    &&& 0 < name.len() <= 63
    &&& forall|i: int| 0 <= i < name.len() ==> name_char(#[trigger] name[i], i)
}

pub open spec fn type_char(c: char) -> bool {
    ||| text::is_letter(c)
    ||| text::is_digit(c)
    ||| c == '_'
    ||| c == ' '
    ||| c == '('
    ||| c == ')'
    ||| c == ','
    ||| c == '['
    ||| c == ']'
}

/// The data types that a logical column may have.
pub open spec fn valid_type(value: Seq<char>) -> bool {
    &&& 0 < value.len() <= 128
    &&& forall|i: int| 0 <= i < value.len() ==> type_char(#[trigger] value[i])
}

pub open spec fn identifier_defect(value: Seq<char>, role: IdentifierRole) -> Option<Defect> {
    if valid_name(value) {
        None
    } else {
        Some(Defect::InvalidIdentifier { role, value })
    }
}

pub open spec fn part_check(parts: Seq<Seq<char>>) -> spec_fn(int) -> Option<Defect> {
    |i: int| identifier_defect(parts[i], IdentifierRole::RelationPart)
}

pub open spec fn relation_defect(value: Seq<char>) -> Option<Defect> {
    let parts = text::split_on(value, '.');
    if parts.len() > 2 {
        Some(Defect::RelationForm)
    } else {
        first_of(0, parts.len() as int, part_check(parts))
    }
}

/// `TABLE` or `SCHEMA.TABLE`, of valid names.
pub open spec fn valid_relation(value: Seq<char>) -> bool {
    let parts = text::split_on(value, '.');
    &&& parts.len() <= 2
    &&& forall|i: int| 0 <= i < parts.len() ==> valid_name(#[trigger] parts[i])
}

pub open spec fn type_defect(value: Seq<char>) -> Option<Defect> {
    if valid_type(value) {
        None
    } else {
        Some(Defect::UnsupportedType(value))
    }
}

fn is_name(name: &str) -> (b: bool)
    ensures
        b == valid_name(name@),
{
    let chars = text::chars_of(name);
    if chars.len() == 0 || chars.len() > 63 {
        return false;
    }
    let mut i: usize = 0;
    while i < chars.len()
        invariant
            i <= chars@.len(),
            chars@ == name@,
            forall|j: int| 0 <= j < i ==> name_char(#[trigger] name@[j], j),
        decreases chars@.len() - i,
    {
        let c = chars[i];
        if !(c == '_' || text::char_is_letter(c) || (text::char_is_digit(c) && i > 0)) {
            assert(!name_char(name@[i as int], i as int));
            return false;
        }
        i += 1;
    }
    true
}

/// Accepts the names that may become catalog names.
pub fn validate_name(name: &str) -> (r: Result<(), ConfigError>)
    ensures
        r is Ok <==> valid_name(name@),
        r matches Err(error) ==> error@ == Defect::InvalidName,
{
    if is_name(name) {
        Ok(())
    } else {
        Err(ConfigError::InvalidName)
    }
}

/// Accepts the valid names, and reports any other with what it was given for.
pub fn validate_identifier(value: &str, role: IdentifierRole) -> (r: Result<(), ConfigError>)
    ensures
        reported(r) == identifier_defect(value@, role),
{
    if is_name(value) {
        Ok(())
    } else {
        Err(ConfigError::InvalidIdentifier { role, value: value.to_owned() })
    }
}

/// Accepts `TABLE` and `SCHEMA.TABLE`.
pub fn validate_relation(value: &str) -> (r: Result<(), ConfigError>)
    ensures
        reported(r) == relation_defect(value@),
        r is Ok <==> valid_relation(value@),
{
    proof {
        lemma_relation(value@);
    }
    let ghost all = text::split_on(value@, '.');
    let parts = text::split(value, '.');
    if parts.len() > 2 {
        return Err(ConfigError::RelationForm);
    }
    let mut i: usize = 0;
    while i < parts.len()
        invariant
            i <= parts@.len(),
            text::texts(parts@) == all,
            all == text::split_on(value@, '.'),
            all.len() <= 2,
            relation_defect(value@) == first_of(i as int, all.len() as int, part_check(all)),
            relation_defect(value@) is None <==> valid_relation(value@),
        decreases parts@.len() - i,
    {
        assert(all[i as int] == parts@[i as int]@);
        if let Err(error) = validate_identifier(parts[i].as_str(), IdentifierRole::RelationPart) {
            return Err(error);
        }
        i += 1;
    }
    Ok(())
}

proof fn lemma_relation(value: Seq<char>)
    ensures
        relation_defect(value) is None <==> valid_relation(value),
{
    let parts = text::split_on(value, '.');
    let check = part_check(parts);
    lemma_first_of_none(0, parts.len() as int, check);
    if valid_relation(value) {
        assert forall|i: int| 0 <= i < parts.len() implies #[trigger] check(i) is None by {
            assert(valid_name(parts[i]));
        }
    }
    if relation_defect(value) is None {
        assert forall|i: int| 0 <= i < parts.len() implies valid_name(#[trigger] parts[i]) by {
            assert(check(i) is None);
        }
    }
}

/// Accepts the data types that a logical column may have.
pub fn validate_data_type(value: &str) -> (r: Result<(), ConfigError>)
    ensures
        reported(r) == type_defect(value@),
{
    let chars = text::chars_of(value);
    let mut valid = chars.len() > 0 && chars.len() <= 128;
    let mut i: usize = 0;
    while valid && i < chars.len()
        invariant
            i <= chars@.len(),
            chars@ == value@,
            valid ==> 0 < chars@.len() <= 128,
            valid ==> forall|j: int| 0 <= j < i ==> type_char(#[trigger] value@[j]),
            !valid ==> !valid_type(value@),
        decreases chars@.len() - i, valid as int,
    {
        let c = chars[i];
        if text::char_is_letter(c) || text::char_is_digit(c) || c == '_' || c == ' ' || c == '('
            || c == ')' || c == ',' || c == '[' || c == ']' {
            i += 1;
        } else {
            assert(!type_char(value@[i as int]));
            valid = false;
        }
    }
    if valid {
        Ok(())
    } else {
        Err(ConfigError::UnsupportedType(value.to_owned()))
    }
}

/// What a view name given as text stands for: the schema and the name.
pub open spec fn view_name_parts(value: Seq<char>) -> Option<(Seq<char>, Seq<char>)> {
    let parts = text::split_on(value, '.');
    if parts.len() == 1 {
        Some(("unified"@, parts[0]))
    } else if parts.len() == 2 {
        Some((parts[0], parts[1]))
    } else {
        None
    }
}

pub open spec fn view_name_defect(value: Seq<char>) -> Option<Defect> {
    match view_name_parts(value) {
        None => Some(Defect::ViewNameForm),
        Some((schema, name)) => either(
            identifier_defect(schema, IdentifierRole::ViewSchema),
            identifier_defect(name, IdentifierRole::ViewName),
        ),
    }
}

/// Takes `NAME` or `SCHEMA.NAME` apart; a name alone is in the schema `unified`.
pub fn parse_qualified_view_name(value: &str) -> (r: Result<(String, String), ConfigError>)
    ensures
        match r {
            Ok((schema, name)) => {
                &&& view_name_defect(value@) is None
                &&& view_name_parts(value@) == Some((schema@, name@))
                &&& valid_name(schema@)
                &&& valid_name(name@)
            },
            Err(error) => view_name_defect(value@) == Some(error@),
        },
{
    let ghost all = text::split_on(value@, '.');
    let parts = text::split(value, '.');
    assert(text::texts(parts@) == all);
    let (schema, name) = if parts.len() == 1 {
        assert(all[0] == parts@[0]@);
        (config::default_view_schema(), parts[0].clone())
    } else if parts.len() == 2 {
        assert(all[0] == parts@[0]@);
        assert(all[1] == parts@[1]@);
        (parts[0].clone(), parts[1].clone())
    } else {
        proof {
            text::lemma_split_is_not_empty(value@, '.');
        }
        return Err(ConfigError::ViewNameForm);
    };
    if let Err(error) = validate_identifier(schema.as_str(), IdentifierRole::ViewSchema) {
        return Err(error);
    }
    if let Err(error) = validate_identifier(name.as_str(), IdentifierRole::ViewName) {
        return Err(error);
    }
    Ok((schema, name))
}

/// A valid name can stand in SQL as it is: it holds letters, digits and underscores alone,
/// begins with no digit, is one part of a qualified name, and quoting adds only the quotes
/// around it.
pub proof fn valid_names_are_sql_identifier_safe(name: Seq<char>)
    requires
        valid_name(name),
    ensures
        forall|i: int|
            0 <= i < name.len() ==> text::is_letter(#[trigger] name[i]) || text::is_digit(name[i])
                || name[i] == '_',
        !text::is_digit(name[0]),
        text::split_on(name, '.') == seq![name],
        quote::doubled(name, '"') == name,
{
    assert(name_char(name[0], 0));
    assert forall|i: int| 0 <= i < name.len() implies name[i] != '.' && name[i] != '"' by {
        assert(name_char(name[i], i));
    }
    text::lemma_one_piece(name, '.');
    quote::lemma_nothing_to_double(name, '"');
}

/// A valid type cannot end the statement that it stands in, nor begin a string.
pub proof fn valid_types_stay_within_their_statement(value: Seq<char>)
    requires
        valid_type(value),
    ensures
        !value.contains(';'),
        !value.contains('\''),
        !value.contains('"'),
        !value.contains('-'),
{
    assert forall|i: int| 0 <= i < value.len() implies value[i] != ';' && value[i] != '\''
        && value[i] != '"' && value[i] != '-' by {
        assert(type_char(value[i]));
    }
}

/// The name of a valid view with its schema in front is read as that schema and that name.
pub proof fn qualified_names_are_read_back(view: ViewModel)
    requires
        valid_name(view.schema),
        valid_name(view.name),
    ensures
        view_name_parts(config::qualified(view)) == Some((view.schema, view.name)),
        view_name_defect(config::qualified(view)) is None,
{
    reveal_strlit(".");
    assert("."@ =~= seq!['.']);
    assert forall|i: int| 0 <= i < view.schema.len() implies view.schema[i] != '.' by {
        assert(name_char(view.schema[i], i));
    }
    assert forall|i: int| 0 <= i < view.name.len() implies view.name[i] != '.' by {
        assert(name_char(view.name[i], i));
    }
    text::lemma_two_pieces(view.schema, view.name, '.');
}

// ---------------------------------------------------------------------------
// Backends
// ---------------------------------------------------------------------------

/// Whether a path starts at the root, which is what makes it absolute on the systems that
/// the gateway runs on.
pub open spec fn absolute(path: Seq<char>) -> bool {
    path.len() > 0 && path[0] == '/'
}

/// Whether a path is absolute.
pub fn is_absolute(path: &str) -> (b: bool)
    ensures
        b == absolute(path@),
{
    let chars = text::chars_of(path);
    chars.len() > 0 && chars[0] == '/'
}

/// Whether an earlier backend has the name of the one at `i`.
pub open spec fn repeats_a_backend(backends: Seq<BackendModel>, i: int) -> bool {
    exists|j: int| 0 <= j < i && (#[trigger] backends[j]).name == backends[i].name
}

pub open spec fn backend_relation_defect(backend: BackendModel) -> Option<Defect> {
    if backend.kind == BackendType::Parquet {
        identifier_defect(config::exposed_relation(backend), IdentifierRole::ParquetRelation)
    } else if backend.relation is Some {
        Some(Defect::UnexpectedRelation(backend.name))
    } else {
        None
    }
}

/// What is wrong with the backend at `i`, given those in front of it.
pub open spec fn backend_defect(backends: Seq<BackendModel>, i: int) -> Option<Defect> {
    let backend = backends[i];
    if !valid_name(backend.name) {
        Some(Defect::InvalidName)
    } else if repeats_a_backend(backends, i) {
        Some(Defect::DuplicateBackend(backend.name))
    } else if !absolute(backend.path) {
        Some(Defect::RelativePath(backend.path))
    } else {
        backend_relation_defect(backend)
    }
}

pub open spec fn backend_check(backends: Seq<BackendModel>) -> spec_fn(int) -> Option<Defect> {
    |i: int| backend_defect(backends, i)
}

pub open spec fn backends_defect(backends: Seq<BackendModel>) -> Option<Defect> {
    first_of(0, backends.len() as int, backend_check(backends))
}

/// A registration that is valid by itself.
pub open spec fn valid_backend(backend: BackendModel) -> bool {
    &&& valid_name(backend.name)
    &&& absolute(backend.path)
    &&& if backend.kind == BackendType::Parquet {
        valid_name(config::exposed_relation(backend))
    } else {
        backend.relation is None
    }
}

pub open spec fn same_backend_name(a: BackendModel, b: BackendModel) -> bool {
    a.name == b.name
}

/// Every registration is valid, and no two have the same name.
pub open spec fn valid_backends(backends: Seq<BackendModel>) -> bool {
    &&& forall|i: int| 0 <= i < backends.len() ==> valid_backend(#[trigger] backends[i])
    &&& !order::clash(backends, |a: BackendModel, b: BackendModel| same_backend_name(a, b))
}

proof fn lemma_backends(backends: Seq<BackendModel>)
    ensures
        backends_defect(backends) is None <==> valid_backends(backends),
{
    let check = backend_check(backends);
    let same = |a: BackendModel, b: BackendModel| same_backend_name(a, b);
    lemma_first_of_none(0, backends.len() as int, check);
    if valid_backends(backends) {
        assert forall|i: int| 0 <= i < backends.len() implies #[trigger] check(i) is None by {
            assert(valid_backend(backends[i]));
            if repeats_a_backend(backends, i) {
                let j = choose|j: int|
                    0 <= j < i && (#[trigger] backends[j]).name == backends[i].name;
                assert(same(backends[j], backends[i]));
            }
        }
    }
    if backends_defect(backends) is None {
        assert forall|i: int| 0 <= i < backends.len() implies valid_backend(
            #[trigger] backends[i],
        ) by {
            assert(check(i) is None);
        }
        if order::clash(backends, same) {
            let (j, i) = choose|j: int, i: int|
                0 <= j < i < backends.len() && #[trigger] same(backends[j], backends[i]);
            assert(check(i) is None);
            assert(backends[j].name == backends[i].name);
            assert(repeats_a_backend(backends, i));
        }
    }
}

fn validate_backend(backends: &Vec<Backend>, i: usize) -> (r: Result<(), ConfigError>)
    requires
        i < backends@.len(),
    ensures
        reported(r) == backend_defect(order::models(backends@), i as int),
{
    let ghost all = order::models(backends@);
    let backend = &backends[i];
    assert(all[i as int] == backend@);
    if let Err(error) = validate_name(backend.name.as_str()) {
        return Err(error);
    }
    let mut j: usize = 0;
    while j < i
        invariant
            j <= i < backends@.len(),
            all == order::models(backends@),
            all[i as int] == backend@,
            valid_name(backend.name@),
            forall|k: int| 0 <= k < j ==> (#[trigger] all[k]).name != backend@.name,
        decreases i - j,
    {
        assert(all[j as int] == backends@[j as int]@);
        if text::same_text(backends[j].name.as_str(), backend.name.as_str()) {
            assert(repeats_a_backend(all, i as int));
            return Err(ConfigError::DuplicateBackend(backend.name.clone()));
        }
        j += 1;
    }
    assert(!repeats_a_backend(all, i as int));
    if !is_absolute(backend.path.as_str()) {
        return Err(ConfigError::RelativePath(backend.path.clone()));
    }
    if backend.kind == BackendType::Parquet {
        validate_identifier(backend.relation(), IdentifierRole::ParquetRelation)
    } else if backend.relation.is_some() {
        Err(ConfigError::UnexpectedRelation(backend.name.clone()))
    } else {
        Ok(())
    }
}

fn validate_backends(backends: &Vec<Backend>) -> (r: Result<(), ConfigError>)
    ensures
        reported(r) == backends_defect(order::models(backends@)),
{
    let ghost all = order::models(backends@);
    let mut i: usize = 0;
    while i < backends.len()
        invariant
            i <= backends@.len(),
            all == order::models(backends@),
            backends_defect(all) == first_of(i as int, all.len() as int, backend_check(all)),
        decreases backends@.len() - i,
    {
        if let Err(error) = validate_backend(backends, i) {
            return Err(error);
        }
        i += 1;
    }
    Ok(())
}

// ---------------------------------------------------------------------------
// Logical views
// ---------------------------------------------------------------------------

pub open spec fn column_defect(view: ViewModel, k: int) -> Option<Defect> {
    either(
        identifier_defect(view.columns[k].0, IdentifierRole::LogicalColumn),
        type_defect(view.columns[k].1),
    )
}

pub open spec fn column_check(view: ViewModel) -> spec_fn(int) -> Option<Defect> {
    |k: int| column_defect(view, k)
}

pub open spec fn mapping_defect(view: ViewModel, input: InputModel, k: int) -> Option<Defect> {
    let (logical, physical) = input.columns[k];
    either(
        identifier_defect(logical, IdentifierRole::MappedLogicalColumn),
        either(
            identifier_defect(physical, IdentifierRole::MappedPhysicalColumn),
            if columns::lookup(view.columns, logical) is Some {
                None
            } else {
                Some(
                    Defect::UnknownColumn {
                        view: config::qualified(view),
                        backend: input.backend,
                        column: logical,
                    },
                )
            },
        ),
    )
}

pub open spec fn mapping_check(view: ViewModel, input: InputModel) -> spec_fn(int) -> Option<
    Defect,
> {
    |k: int| mapping_defect(view, input, k)
}

/// Whether an earlier input reads the backend of the one at `k`.
pub open spec fn repeats_an_input(inputs: Seq<InputModel>, k: int) -> bool {
    exists|j: int| 0 <= j < k && (#[trigger] inputs[j]).backend == inputs[k].backend
}

pub open spec fn input_defect(view: ViewModel, k: int) -> Option<Defect> {
    let input = view.inputs[k];
    either(
        identifier_defect(input.backend, IdentifierRole::InputBackend),
        either(
            relation_defect(input.relation),
            if repeats_an_input(view.inputs, k) {
                Some(
                    Defect::DuplicateInput {
                        view: config::qualified(view),
                        backend: input.backend,
                    },
                )
            } else {
                first_of(0, input.columns.len() as int, mapping_check(view, input))
            },
        ),
    )
}

pub open spec fn input_check(view: ViewModel) -> spec_fn(int) -> Option<Defect> {
    |k: int| input_defect(view, k)
}

pub open spec fn source_column_defect(view: ViewModel) -> Option<Defect> {
    match view.source_column {
        None => None,
        Some(column) => either(
            identifier_defect(column, IdentifierRole::SourceColumn),
            if columns::lookup(view.columns, column) is Some {
                Some(Defect::SourceColumnTaken { view: config::qualified(view), column })
            } else {
                None
            },
        ),
    }
}

/// Whether an earlier view has the schema and the name of the one at `i`.
pub open spec fn repeats_a_view(views: Seq<ViewModel>, i: int) -> bool {
    exists|j: int|
        0 <= j < i && (#[trigger] views[j]).schema == views[i].schema && views[j].name
            == views[i].name
}

/// What is wrong with a view behind its name.
pub open spec fn view_body_defect(view: ViewModel) -> Option<Defect> {
    either(
        source_column_defect(view),
        if view.inputs.len() == 0 {
            Some(Defect::NoInputs(config::qualified(view)))
        } else {
            either(
                first_of(0, view.columns.len() as int, column_check(view)),
                first_of(0, view.inputs.len() as int, input_check(view)),
            )
        },
    )
}

/// What is wrong with the view at `i`, given those in front of it.
pub open spec fn view_defect(views: Seq<ViewModel>, i: int) -> Option<Defect> {
    let view = views[i];
    either(
        identifier_defect(view.schema, IdentifierRole::ViewSchema),
        either(
            identifier_defect(view.name, IdentifierRole::ViewName),
            if repeats_a_view(views, i) {
                Some(Defect::DuplicateView(config::qualified(view)))
            } else {
                view_body_defect(view)
            },
        ),
    )
}

pub open spec fn view_check(views: Seq<ViewModel>) -> spec_fn(int) -> Option<Defect> {
    |i: int| view_defect(views, i)
}

pub open spec fn views_defect(views: Seq<ViewModel>) -> Option<Defect> {
    first_of(0, views.len() as int, view_check(views))
}

pub open spec fn valid_mapping(view: ViewModel, entry: columns::Entry) -> bool {
    &&& valid_name(entry.0)
    &&& valid_name(entry.1)
    &&& columns::lookup(view.columns, entry.0) is Some
}

pub open spec fn valid_input(view: ViewModel, input: InputModel) -> bool {
    &&& valid_name(input.backend)
    &&& valid_relation(input.relation)
    &&& forall|k: int|
        0 <= k < input.columns.len() ==> valid_mapping(view, #[trigger] input.columns[k])
}

pub open spec fn valid_column(entry: columns::Entry) -> bool {
    valid_name(entry.0) && valid_type(entry.1)
}

pub open spec fn same_input_backend(a: InputModel, b: InputModel) -> bool {
    a.backend == b.backend
}

pub open spec fn same_view_name(a: ViewModel, b: ViewModel) -> bool {
    a.schema == b.schema && a.name == b.name
}

/// A definition that is valid by itself.
pub open spec fn valid_view(view: ViewModel) -> bool {
    &&& valid_name(view.schema)
    &&& valid_name(view.name)
    &&& view.source_column matches Some(column) ==> valid_name(column) && columns::lookup(
        view.columns,
        column,
    ) is None
    &&& view.inputs.len() > 0
    &&& forall|k: int| 0 <= k < view.columns.len() ==> valid_column(#[trigger] view.columns[k])
    &&& forall|k: int| 0 <= k < view.inputs.len() ==> valid_input(view, #[trigger] view.inputs[k])
    &&& !order::clash(view.inputs, |a: InputModel, b: InputModel| same_input_backend(a, b))
}

/// Every definition is valid, and no two have the same schema and name.
pub open spec fn valid_views(views: Seq<ViewModel>) -> bool {
    &&& forall|i: int| 0 <= i < views.len() ==> valid_view(#[trigger] views[i])
    &&& !order::clash(views, |a: ViewModel, b: ViewModel| same_view_name(a, b))
}

proof fn lemma_mappings(view: ViewModel, input: InputModel)
    ensures
        first_of(0, input.columns.len() as int, mapping_check(view, input)) is None <==> (forall|
            k: int,
        |
            0 <= k < input.columns.len() ==> valid_mapping(view, #[trigger] input.columns[k])),
{
    let check = mapping_check(view, input);
    lemma_first_of_none(0, input.columns.len() as int, check);
    if forall|k: int| 0 <= k < input.columns.len() ==> #[trigger] check(k) is None {
        assert forall|k: int| 0 <= k < input.columns.len() implies valid_mapping(
            view,
            #[trigger] input.columns[k],
        ) by {
            assert(check(k) is None);
        }
    }
    if forall|k: int| 0 <= k < input.columns.len() ==> valid_mapping(view, #[trigger] input.columns[k]) {
        assert forall|k: int| 0 <= k < input.columns.len() implies #[trigger] check(k) is None by {
            assert(valid_mapping(view, input.columns[k]));
        }
    }
}

proof fn lemma_inputs(view: ViewModel)
    ensures
        first_of(0, view.inputs.len() as int, input_check(view)) is None <==> {
            &&& forall|k: int|
                0 <= k < view.inputs.len() ==> valid_input(view, #[trigger] view.inputs[k])
            &&& !order::clash(view.inputs, |a: InputModel, b: InputModel| same_input_backend(a, b))
        },
{
    let check = input_check(view);
    let same = |a: InputModel, b: InputModel| same_input_backend(a, b);
    let inputs = view.inputs;
    lemma_first_of_none(0, inputs.len() as int, check);
    if forall|k: int| 0 <= k < inputs.len() ==> #[trigger] check(k) is None {
        assert forall|k: int| 0 <= k < inputs.len() implies valid_input(
            view,
            #[trigger] inputs[k],
        ) by {
            assert(check(k) is None);
            lemma_relation(inputs[k].relation);
            lemma_mappings(view, inputs[k]);
        }
        if order::clash(inputs, same) {
            let (j, k) = choose|j: int, k: int|
                0 <= j < k < inputs.len() && #[trigger] same(inputs[j], inputs[k]);
            assert(check(k) is None);
            assert(inputs[j].backend == inputs[k].backend);
            assert(repeats_an_input(inputs, k));
        }
    }
    if (forall|k: int| 0 <= k < inputs.len() ==> valid_input(view, #[trigger] inputs[k]))
        && !order::clash(inputs, same) {
        assert forall|k: int| 0 <= k < inputs.len() implies #[trigger] check(k) is None by {
            assert(valid_input(view, inputs[k]));
            lemma_relation(inputs[k].relation);
            lemma_mappings(view, inputs[k]);
            if repeats_an_input(inputs, k) {
                let j = choose|j: int|
                    0 <= j < k && (#[trigger] inputs[j]).backend == inputs[k].backend;
                assert(same(inputs[j], inputs[k]));
            }
        }
    }
}

proof fn lemma_columns(view: ViewModel)
    ensures
        first_of(0, view.columns.len() as int, column_check(view)) is None <==> (forall|k: int|
            0 <= k < view.columns.len() ==> valid_column(#[trigger] view.columns[k])),
{
    let check = column_check(view);
    lemma_first_of_none(0, view.columns.len() as int, check);
    if forall|k: int| 0 <= k < view.columns.len() ==> #[trigger] check(k) is None {
        assert forall|k: int| 0 <= k < view.columns.len() implies valid_column(
            #[trigger] view.columns[k],
        ) by {
            assert(check(k) is None);
        }
    }
    if forall|k: int| 0 <= k < view.columns.len() ==> valid_column(#[trigger] view.columns[k]) {
        assert forall|k: int| 0 <= k < view.columns.len() implies #[trigger] check(k) is None by {
            assert(valid_column(view.columns[k]));
        }
    }
}

proof fn lemma_views(views: Seq<ViewModel>)
    ensures
        views_defect(views) is None <==> valid_views(views),
{
    let check = view_check(views);
    let same = |a: ViewModel, b: ViewModel| same_view_name(a, b);
    lemma_first_of_none(0, views.len() as int, check);
    if valid_views(views) {
        assert forall|i: int| 0 <= i < views.len() implies #[trigger] check(i) is None by {
            assert(valid_view(views[i]));
            lemma_columns(views[i]);
            lemma_inputs(views[i]);
            if repeats_a_view(views, i) {
                let j = choose|j: int|
                    0 <= j < i && (#[trigger] views[j]).schema == views[i].schema && views[j].name
                        == views[i].name;
                assert(same(views[j], views[i]));
            }
        }
    }
    if views_defect(views) is None {
        assert forall|i: int| 0 <= i < views.len() implies valid_view(#[trigger] views[i]) by {
            assert(check(i) is None);
            lemma_columns(views[i]);
            lemma_inputs(views[i]);
        }
        if order::clash(views, same) {
            let (j, i) = choose|j: int, i: int|
                0 <= j < i < views.len() && #[trigger] same(views[j], views[i]);
            assert(check(i) is None);
            assert(views[j].schema == views[i].schema);
            assert(repeats_a_view(views, i));
        }
    }
}

fn validate_mappings(view: &LogicalView, input: &ViewInput) -> (r: Result<(), ConfigError>)
    ensures
        reported(r) == first_of(
            0,
            input@.columns.len() as int,
            mapping_check(view@, input@),
        ),
{
    let mut k: usize = 0;
    let ghost check = mapping_check(view@, input@);
    let ghost count = input@.columns.len() as int;
    while k < input.columns.len()
        invariant
            k <= count,
            count == input@.columns.len(),
            check == mapping_check(view@, input@),
            first_of(0, count, check) == first_of(k as int, count, check),
        decreases count - k,
    {
        let logical = input.columns.name_at(k);
        let physical = input.columns.value_at(k);
        assert(check(k as int) == mapping_defect(view@, input@, k as int));
        if let Err(error) = validate_identifier(logical, IdentifierRole::MappedLogicalColumn) {
            return Err(error);
        }
        if let Err(error) = validate_identifier(physical, IdentifierRole::MappedPhysicalColumn) {
            return Err(error);
        }
        if !view.columns.contains_key(logical) {
            return Err(
                ConfigError::UnknownColumn {
                    view: view.qualified_name(),
                    backend: input.backend.clone(),
                    column: logical.to_owned(),
                },
            );
        }
        k += 1;
    }
    Ok(())
}

fn validate_input(view: &LogicalView, k: usize) -> (r: Result<(), ConfigError>)
    requires
        k < view.inputs@.len(),
    ensures
        reported(r) == input_defect(view@, k as int),
{
    let input = &view.inputs[k];
    let ghost all = view@.inputs;
    assert(all[k as int] == input@);
    if let Err(error) = validate_identifier(input.backend.as_str(), IdentifierRole::InputBackend) {
        return Err(error);
    }
    if let Err(error) = validate_relation(input.relation.as_str()) {
        return Err(error);
    }
    let mut j: usize = 0;
    while j < k
        invariant
            j <= k < view.inputs@.len(),
            all == view@.inputs,
            all[k as int] == input@,
            valid_name(input@.backend),
            relation_defect(input@.relation) is None,
            forall|i: int| 0 <= i < j ==> (#[trigger] all[i]).backend != input@.backend,
        decreases k - j,
    {
        assert(all[j as int] == view.inputs@[j as int]@);
        if text::same_text(view.inputs[j].backend.as_str(), input.backend.as_str()) {
            assert(repeats_an_input(all, k as int));
            return Err(
                ConfigError::DuplicateInput {
                    view: view.qualified_name(),
                    backend: input.backend.clone(),
                },
            );
        }
        j += 1;
    }
    assert(!repeats_an_input(all, k as int));
    validate_mappings(view, input)
}

fn validate_columns(view: &LogicalView) -> (r: Result<(), ConfigError>)
    ensures
        reported(r) == first_of(0, view@.columns.len() as int, column_check(view@)),
{
    let mut k: usize = 0;
    let ghost check = column_check(view@);
    let ghost count = view@.columns.len() as int;
    while k < view.columns.len()
        invariant
            k <= count,
            count == view@.columns.len(),
            check == column_check(view@),
            first_of(0, count, check) == first_of(k as int, count, check),
        decreases count - k,
    {
        assert(check(k as int) == column_defect(view@, k as int));
        if let Err(error) = validate_identifier(
            view.columns.name_at(k),
            IdentifierRole::LogicalColumn,
        ) {
            return Err(error);
        }
        if let Err(error) = validate_data_type(view.columns.value_at(k)) {
            return Err(error);
        }
        k += 1;
    }
    Ok(())
}

fn validate_view_body(view: &LogicalView) -> (r: Result<(), ConfigError>)
    ensures
        reported(r) == view_body_defect(view@),
{
    if let Some(column) = &view.source_column {
        if let Err(error) = validate_identifier(column.as_str(), IdentifierRole::SourceColumn) {
            return Err(error);
        }
        if view.columns.contains_key(column.as_str()) {
            return Err(
                ConfigError::SourceColumnTaken {
                    view: view.qualified_name(),
                    column: column.clone(),
                },
            );
        }
    }
    if view.inputs.len() == 0 {
        return Err(ConfigError::NoInputs(view.qualified_name()));
    }
    if let Err(error) = validate_columns(view) {
        return Err(error);
    }
    let mut k: usize = 0;
    let ghost check = input_check(view@);
    let ghost count = view@.inputs.len() as int;
    while k < view.inputs.len()
        invariant
            k <= count,
            count == view.inputs@.len(),
            check == input_check(view@),
            first_of(0, count, check) == first_of(k as int, count, check),
            view_body_defect(view@) == first_of(0, count, check),
        decreases count - k,
    {
        assert(check(k as int) == input_defect(view@, k as int));
        if let Err(error) = validate_input(view, k) {
            return Err(error);
        }
        k += 1;
    }
    Ok(())
}

fn validate_view(views: &Vec<LogicalView>, i: usize) -> (r: Result<(), ConfigError>)
    requires
        i < views@.len(),
    ensures
        reported(r) == view_defect(order::models(views@), i as int),
{
    let ghost all = order::models(views@);
    let view = &views[i];
    assert(all[i as int] == view@);
    if let Err(error) = validate_identifier(view.schema.as_str(), IdentifierRole::ViewSchema) {
        return Err(error);
    }
    if let Err(error) = validate_identifier(view.name.as_str(), IdentifierRole::ViewName) {
        return Err(error);
    }
    let mut j: usize = 0;
    while j < i
        invariant
            j <= i < views@.len(),
            all == order::models(views@),
            all[i as int] == view@,
            valid_name(view@.schema),
            valid_name(view@.name),
            forall|k: int|
                0 <= k < j ==> !((#[trigger] all[k]).schema == view@.schema && all[k].name
                    == view@.name),
        decreases i - j,
    {
        assert(all[j as int] == views@[j as int]@);
        if text::same_text(views[j].schema.as_str(), view.schema.as_str()) && text::same_text(
            views[j].name.as_str(),
            view.name.as_str(),
        ) {
            assert(repeats_a_view(all, i as int));
            return Err(ConfigError::DuplicateView(view.qualified_name()));
        }
        j += 1;
    }
    assert(!repeats_a_view(all, i as int));
    validate_view_body(view)
}

fn validate_views(views: &Vec<LogicalView>) -> (r: Result<(), ConfigError>)
    ensures
        reported(r) == views_defect(order::models(views@)),
{
    let ghost all = order::models(views@);
    let mut i: usize = 0;
    while i < views.len()
        invariant
            i <= views@.len(),
            all == order::models(views@),
            views_defect(all) == first_of(i as int, all.len() as int, view_check(all)),
        decreases views@.len() - i,
    {
        if let Err(error) = validate_view(views, i) {
            return Err(error);
        }
        i += 1;
    }
    Ok(())
}

// ---------------------------------------------------------------------------
// The configuration as a whole
// ---------------------------------------------------------------------------

/// Backends are listed by name.
impl Sortable for Backend {
    open spec fn key() -> spec_fn(BackendModel) -> Seq<char> {
        |backend: BackendModel| backend.name
    }

    fn is_before(&self, other: &Self) -> (r: bool) {
        order::text_precedes(self.name.as_str(), other.name.as_str())
    }
}

/// Views are listed by their names with their schemas in front.
impl Sortable for LogicalView {
    open spec fn key() -> spec_fn(ViewModel) -> Seq<char> {
        |view: ViewModel| config::qualified(view)
    }

    fn is_before(&self, other: &Self) -> (r: bool) {
        order::text_precedes(self.qualified_name().as_str(), other.qualified_name().as_str())
    }
}

/// What is wrong with the numbers of a configuration.
pub open spec fn settings_defect(c: ConfigModel) -> Option<Defect> {
    if c.version != 1 {
        Some(Defect::UnsupportedVersion(c.version))
    } else if !(1 <= c.workers <= 64) {
        Some(Defect::WorkersOutOfRange)
    } else if !(1 <= c.threads_per_worker <= 64) {
        Some(Defect::ThreadsOutOfRange)
    } else if c.max_rows == 0 {
        Some(Defect::NoRows)
    } else if c.request_timeout_seconds == 0 {
        Some(Defect::NoTimeout)
    } else {
        None
    }
}

/// The configuration with its backends listed by name.
pub open spec fn with_sorted_backends(c: ConfigModel) -> ConfigModel {
    ConfigModel { backends: order::stable_sort(c.backends, Backend::key()), ..c }
}

/// The configuration with its backends and its views listed by name.
pub open spec fn arranged(c: ConfigModel) -> ConfigModel {
    ConfigModel {
        backends: order::stable_sort(c.backends, Backend::key()),
        views: order::stable_sort(c.views, LogicalView::key()),
        ..c
    }
}

/// What validation leaves of a configuration, and the first defect that it meets: the
/// numbers come first, then the backends by name, then the views by name.
pub open spec fn validation(c: ConfigModel) -> (ConfigModel, Option<Defect>) {
    if settings_defect(c) is Some {
        (c, settings_defect(c))
    } else if backends_defect(arranged(c).backends) is Some {
        (with_sorted_backends(c), backends_defect(arranged(c).backends))
    } else {
        (arranged(c), views_defect(arranged(c).views))
    }
}

/// A configuration without defects.
pub open spec fn valid_config(c: ConfigModel) -> bool {
    &&& settings_defect(c) is None
    &&& valid_backends(c.backends)
    &&& valid_views(c.views)
}

/// Listing the backends and the views by name does not change whether a configuration is
/// valid.
pub proof fn arranging_keeps_validity(c: ConfigModel)
    ensures
        valid_config(arranged(c)) <==> valid_config(c),
{
    let a = arranged(c);
    let same_backend = |a: BackendModel, b: BackendModel| same_backend_name(a, b);
    let same_view = |a: ViewModel, b: ViewModel| same_view_name(a, b);
    order::stable_sort_keeps_the_items(c.backends, Backend::key());
    order::stable_sort_keeps_the_items(c.views, LogicalView::key());
    order::clashes_survive_reordering(c.backends, a.backends, same_backend);
    order::clashes_survive_reordering(a.backends, c.backends, same_backend);
    order::clashes_survive_reordering(c.views, a.views, same_view);
    order::clashes_survive_reordering(a.views, c.views, same_view);
    let backend_ok = |b: BackendModel| valid_backend(b);
    let view_ok = |v: ViewModel| valid_view(v);
    order::properties_survive_reordering(c.backends, a.backends, backend_ok);
    order::properties_survive_reordering(a.backends, c.backends, backend_ok);
    order::properties_survive_reordering(c.views, a.views, view_ok);
    order::properties_survive_reordering(a.views, c.views, view_ok);
    assert(valid_backends(c.backends) <==> valid_backends(a.backends)) by {
        assert(order::every(c.backends, backend_ok) <==> (forall|i: int|
            0 <= i < c.backends.len() ==> valid_backend(#[trigger] c.backends[i])));
        assert(order::every(a.backends, backend_ok) <==> (forall|i: int|
            0 <= i < a.backends.len() ==> valid_backend(#[trigger] a.backends[i])));
    }
    assert(valid_views(c.views) <==> valid_views(a.views)) by {
        assert(order::every(c.views, view_ok) <==> (forall|i: int|
            0 <= i < c.views.len() ==> valid_view(#[trigger] c.views[i])));
        assert(order::every(a.views, view_ok) <==> (forall|i: int|
            0 <= i < a.views.len() ==> valid_view(#[trigger] a.views[i])));
    }
}

/// Listing what is listed by name already changes nothing.
pub proof fn arranging_is_idempotent(c: ConfigModel)
    ensures
        arranged(arranged(c)) == arranged(c),
{
    order::stable_sort_sorts(c.backends, Backend::key());
    order::stable_sort_sorts(c.views, LogicalView::key());
    order::sorting_what_is_sorted_changes_nothing(arranged(c).backends, Backend::key());
    order::sorting_what_is_sorted_changes_nothing(arranged(c).views, LogicalView::key());
}

/// Validation finds no defect exactly in the valid configurations.
pub proof fn validation_accepts_the_valid(c: ConfigModel)
    ensures
        validation(c).1 is None <==> valid_config(c),
{
    lemma_backends(arranged(c).backends);
    lemma_views(arranged(c).views);
    arranging_keeps_validity(c);
}

/// What validation has accepted it accepts again, and leaves as it is.
pub proof fn validation_is_idempotent(c: ConfigModel)
    requires
        validation(c).1 is None,
    ensures
        validation(validation(c).0) == (validation(c).0, None::<Defect>),
{
    validation_accepts_the_valid(c);
    arranging_keeps_validity(c);
    arranging_is_idempotent(c);
    validation_accepts_the_valid(arranged(c));
}

fn validate_settings(config: &Config) -> (r: Result<(), ConfigError>)
    ensures
        reported(r) == settings_defect(config@),
{
    if config.version != 1 {
        return Err(ConfigError::UnsupportedVersion(config.version));
    }
    if config.workers == 0 || config.workers > 64 {
        return Err(ConfigError::WorkersOutOfRange);
    }
    if config.threads_per_worker == 0 || config.threads_per_worker > 64 {
        return Err(ConfigError::ThreadsOutOfRange);
    }
    if config.max_rows == 0 {
        return Err(ConfigError::NoRows);
    }
    if config.request_timeout_seconds == 0 {
        return Err(ConfigError::NoTimeout);
    }
    Ok(())
}

/// Lists the backends and the views of a configuration by name, and accepts it where it
/// has no defect.
pub fn validate_config(config: &mut Config) -> (r: Result<(), ConfigError>)
    ensures
        (final(config)@, reported(r)) == validation(old(config)@),
        r is Ok <==> valid_config(old(config)@),
{
    let ghost given = config@;
    proof {
        validation_accepts_the_valid(given);
    }
    if let Err(error) = validate_settings(config) {
        return Err(error);
    }
    let mut backends: Vec<Backend> = Vec::new();
    std::mem::swap(&mut backends, &mut config.backends);
    config.backends = order::sort(backends);
    assert(config@ =~= with_sorted_backends(given));
    if let Err(error) = validate_backends(&config.backends) {
        return Err(error);
    }
    let mut views: Vec<LogicalView> = Vec::new();
    std::mem::swap(&mut views, &mut config.views);
    config.views = order::sort(views);
    assert(config@ =~= arranged(given));
    validate_views(&config.views)
}

// ---------------------------------------------------------------------------
// Loading and saving
// ---------------------------------------------------------------------------

/// The configuration that a written one means, listed by name, where it is valid.
pub fn load_config(parts: &ConfigParts, parallelism: Option<usize>) -> (r: Result<
    Config,
    ConfigError,
>)
    ensures
        match r {
            Ok(config) => validation(config::completed_config(*parts, parallelism)) == (
                config@,
                None::<Defect>,
            ),
            Err(error) => validation(config::completed_config(*parts, parallelism)).1 == Some(
                error@,
            ),
        },
        r is Ok <==> valid_config(config::completed_config(*parts, parallelism)),
{
    let mut config = parts.complete(parallelism);
    match validate_config(&mut config) {
        Ok(_) => Ok(config),
        Err(error) => Err(error),
    }
}

/// A configuration as it is written down, listed by name, where it is valid. Loading what was
/// saved gives the configuration back, on every machine.
pub fn save_config(config: &Config) -> (r: Result<ConfigParts, ConfigError>)
    ensures
        match r {
            Ok(parts) => {
                &&& valid_config(config@)
                &&& forall|parallelism: Option<usize>|
                    #[trigger] config::completed_config(parts, parallelism) == arranged(config@)
            },
            Err(error) => validation(config@).1 == Some(error@),
        },
        r is Ok <==> valid_config(config@),
{
    let mut copy = config.clone();
    match validate_config(&mut copy) {
        Ok(_) => Ok(copy.parts()),
        Err(error) => Err(error),
    }
}

/// What was saved is loaded again as it was saved.
pub proof fn saved_configurations_are_loaded_back(
    c: ConfigModel,
    parts: ConfigParts,
    parallelism: Option<usize>,
)
    requires
        valid_config(c),
        config::completed_config(parts, parallelism) == arranged(c),
    ensures
        validation(config::completed_config(parts, parallelism)) == (arranged(c), None::<Defect>),
{
    validation_accepts_the_valid(c);
    validation_is_idempotent(c);
}

/// The configuration that a gateway starts with is valid, and is already listed by name.
pub proof fn the_default_configuration_is_valid(parallelism: Option<usize>)
    ensures
        valid_config(config::default_config(parallelism)),
        arranged(config::default_config(parallelism)) == config::default_config(parallelism),
{
    let c = config::default_config(parallelism);
    assert(!order::clash(
        c.backends,
        |a: BackendModel, b: BackendModel| same_backend_name(a, b),
    ));
    assert(!order::clash(c.views, |a: ViewModel, b: ViewModel| same_view_name(a, b)));
    assert(arranged(c) =~= c);
}

// ---------------------------------------------------------------------------
// Laws
// ---------------------------------------------------------------------------

/// Whether a character is a letter of the Latin alphabet or an underscore.
pub open spec fn opens_a_name(c: char) -> bool {
    c == '_' || ('a' <= c && c <= 'z') || ('A' <= c && c <= 'Z')
}

/// Whether a text is a name: from one to sixty-three characters, of which the first is a letter
/// or an underscore and the others may be digits too.
pub open spec fn is_a_name(name: Seq<char>) -> bool {
    &&& 1 <= name.len() < 64
    &&& opens_a_name(name[0])
    &&& forall|i: int|
        1 <= i < name.len() ==> opens_a_name(#[trigger] name[i]) || ('0' <= name[i] && name[i]
            <= '9')
}

proof fn lemma_names(name: Seq<char>)
    ensures
        valid_name(name) <==> is_a_name(name),
{
    if is_a_name(name) {
        assert forall|i: int| 0 <= i < name.len() implies name_char(#[trigger] name[i], i) by {
        }
    }
    if valid_name(name) {
        assert(name_char(name[0], 0));
        assert forall|i: int| 1 <= i < name.len() implies opens_a_name(#[trigger] name[i]) || ('0'
            <= name[i] && name[i] <= '9') by {
            assert(name_char(name[i], i));
        }
    }
}

/// A name is accepted exactly where it is one, and an identifier that is none is reported with
/// what it was given for.
pub proof fn names_are_accepted_by_their_characters(
    name: &str,
    role: IdentifierRole,
    a: Result<(), ConfigError>,
    b: Result<(), ConfigError>,
)
    requires
        call_ensures(validate_name, (name,), a),
        call_ensures(validate_identifier, (name, role), b),
    ensures
        a is Ok <==> is_a_name(name@),
        b is Ok <==> is_a_name(name@),
        a matches Err(error) ==> error is InvalidName,
        b matches Err(error) ==> (error matches ConfigError::InvalidIdentifier {
            role: given,
            value,
        } && given == role && value@ == name@),
{
    lemma_names(name@);
    if let Err(error) = a {
        assert(error@ == Defect::InvalidName);
    }
    if let Err(error) = b {
        assert(reported(b) == Some(error@));
    }
}

/// A relation is one name, or two with a dot between them. One of more parts has no form that is
/// accepted, and of the others the first part that is no name is reported.
pub proof fn relations_are_one_name_or_two(
    value: &str,
    a: Seq<char>,
    b: Seq<char>,
    c: Seq<char>,
    r: Result<(), ConfigError>,
)
    requires
        call_ensures(validate_relation, (value,), r),
        !a.contains('.'),
        !b.contains('.'),
    ensures
        value@ == a ==> (r is Ok <==> is_a_name(a)),
        value@ == a + seq!['.'] + b ==> (r is Ok <==> is_a_name(a) && is_a_name(b)),
        value@ == a + seq!['.'] + b + seq!['.'] + c ==> (r matches Err(error)
            && error is RelationForm),
        value@ == a && !is_a_name(a) ==> (r matches Err(error) && error@ == (
        Defect::InvalidIdentifier { role: IdentifierRole::RelationPart, value: a })),
        value@ == a + seq!['.'] + b && !is_a_name(a) ==> (r matches Err(error) && error@ == (
        Defect::InvalidIdentifier { role: IdentifierRole::RelationPart, value: a })),
        value@ == a + seq!['.'] + b && is_a_name(a) && !is_a_name(b) ==> (r matches Err(error)
            && error@ == (Defect::InvalidIdentifier {
            role: IdentifierRole::RelationPart,
            value: b,
        })),
{
    lemma_names(a);
    lemma_names(b);
    text::lemma_one_piece(a, '.');
    text::lemma_two_pieces(a, b, '.');
    let parts = text::split_on(value@, '.');
    let check = part_check(parts);
    if value@ == a {
        assert(parts =~= seq![a]);
        assert(parts[0] == a);
        reveal_with_fuel(first_of, 3);
        assert(check(0) == identifier_defect(a, IdentifierRole::RelationPart));
    }
    if value@ == a + seq!['.'] + b {
        assert(parts =~= seq![a, b]);
        reveal_with_fuel(first_of, 3);
        assert(check(0) == identifier_defect(a, IdentifierRole::RelationPart));
        assert(check(1) == identifier_defect(b, IdentifierRole::RelationPart));
        assert(parts[0] == a && parts[1] == b);
    }
    if value@ == a + seq!['.'] + b + seq!['.'] + c {
        text::splitting_splits_at_each_separator(a + seq!['.'] + b, c, '.');
        text::lemma_split_is_not_empty(c, '.');
        assert(parts.len() > 2);
    }
    if let Err(error) = r {
        assert(reported(r) == Some(error@));
    }
}

/// Whether a character may stand in the type of a column.
pub open spec fn stands_in_a_type(c: char) -> bool {
    opens_a_name(c) || ('0' <= c && c <= '9') || " (),[]"@.contains(c)
}

/// A type is accepted exactly where it has from one to a hundred and twenty-eight characters,
/// each of them a letter, a digit, an underscore, a space, a comma or a bracket; any other is
/// reported as it was given.
pub proof fn types_are_accepted_by_their_characters(value: &str, r: Result<(), ConfigError>)
    requires
        call_ensures(validate_data_type, (value,), r),
    ensures
        r is Ok <==> 1 <= value@.len() <= 128 && (forall|i: int|
            0 <= i < value@.len() ==> stands_in_a_type(#[trigger] value@[i])),
        r matches Err(error) ==> (error matches ConfigError::UnsupportedType(given) && given@
            == value@),
{
    reveal_strlit(" (),[]");
    let marks = " (),[]"@;
    assert(marks[0] == ' ' && marks[1] == '(' && marks[2] == ')' && marks[3] == ',' && marks[4]
        == '[' && marks[5] == ']');
    assert forall|c: char| #[trigger] stands_in_a_type(c) <==> type_char(c) by {
        if type_char(c) {
            assert(c == ' ' ==> marks.contains(marks[0]));
            assert(c == '(' ==> marks.contains(marks[1]));
            assert(c == ')' ==> marks.contains(marks[2]));
            assert(c == ',' ==> marks.contains(marks[3]));
            assert(c == '[' ==> marks.contains(marks[4]));
            assert(c == ']' ==> marks.contains(marks[5]));
        }
        if marks.contains(c) {
            let k = choose|k: int| 0 <= k < marks.len() && marks[k] == c;
            assert(0 <= k < 6);
        }
    }
    if valid_type(value@) {
        assert forall|i: int| 0 <= i < value@.len() implies stands_in_a_type(
            #[trigger] value@[i],
        ) by {
            assert(type_char(value@[i]));
        }
    }
    if forall|i: int| 0 <= i < value@.len() ==> stands_in_a_type(#[trigger] value@[i]) {
        assert forall|i: int| 0 <= i < value@.len() implies type_char(#[trigger] value@[i]) by {
            assert(stands_in_a_type(value@[i]));
        }
    }
    if let Err(error) = r {
        assert(reported(r) == Some(error@));
    }
}

/// A view is named by a name alone, which is in the schema `unified`, or by a schema and a name
/// with a dot between them; anything else names none.
pub proof fn views_are_named_with_or_without_schema(
    value: &str,
    a: Seq<char>,
    b: Seq<char>,
    c: Seq<char>,
    r: Result<(String, String), ConfigError>,
)
    requires
        call_ensures(parse_qualified_view_name, (value,), r),
        !a.contains('.'),
        !b.contains('.'),
    ensures
        value@ == a && is_a_name(a) ==> (r matches Ok((schema, name)) && schema@ == "unified"@
            && name@ == a),
        value@ == a && !is_a_name(a) ==> (r matches Err(error) && error@ == (
        Defect::InvalidIdentifier { role: IdentifierRole::ViewName, value: a })),
        value@ == a + seq!['.'] + b && is_a_name(a) && is_a_name(b) ==> (r matches Ok(
            (schema, name),
        ) && schema@ == a && name@ == b),
        value@ == a + seq!['.'] + b && !is_a_name(a) ==> (r matches Err(error) && error@ == (
        Defect::InvalidIdentifier { role: IdentifierRole::ViewSchema, value: a })),
        value@ == a + seq!['.'] + b && is_a_name(a) && !is_a_name(b) ==> (r matches Err(error)
            && error@ == (Defect::InvalidIdentifier { role: IdentifierRole::ViewName, value: b })),
        value@ == a + seq!['.'] + b + seq!['.'] + c ==> (r matches Err(error)
            && error is ViewNameForm),
{
    lemma_names(a);
    lemma_names(b);
    text::lemma_one_piece(a, '.');
    text::lemma_two_pieces(a, b, '.');
    reveal_strlit("unified");
    let unified = "unified"@;
    assert(valid_name(unified)) by {
        assert forall|i: int| 0 <= i < unified.len() implies name_char(
            #[trigger] unified[i],
            i,
        ) by {
        }
    }
    let parts = text::split_on(value@, '.');
    if value@ == a {
        assert(parts =~= seq![a]);
        assert(parts[0] == a);
    }
    if value@ == a + seq!['.'] + b {
        assert(parts =~= seq![a, b]);
        assert(parts[0] == a && parts[1] == b);
    }
    if value@ == a + seq!['.'] + b + seq!['.'] + c {
        text::splitting_splits_at_each_separator(a + seq!['.'] + b, c, '.');
        text::lemma_split_is_not_empty(c, '.');
        assert(parts.len() > 2);
    }
}

/// A path is absolute exactly where it begins with a slash.
pub proof fn absolute_paths_begin_at_the_root(path: &str, b: bool)
    requires
        call_ensures(is_absolute, (path,), b),
    ensures
        b <==> "/"@.is_prefix_of(path@),
{
    reveal_strlit("/");
    if path@.len() > 0 {
        assert(path@[0] == '/' ==> path@.take(1) =~= "/"@);
        if "/"@.is_prefix_of(path@) {
            assert(path@[0] == "/"@[0]);
        }
    }
}

/// Whether a column map declares a name.
pub open spec fn declares(entries: Seq<columns::Entry>, name: Seq<char>) -> bool {
    exists|k: int| 0 <= k < entries.len() && (#[trigger] entries[k]).0 == name
}

/// Whether a backend is sound by itself: it has a name and an absolute path, and a relation only
/// where it is Parquet, which is a name too.
pub open spec fn sound_backend(backend: BackendModel) -> bool {
    &&& is_a_name(backend.name)
    &&& "/"@.is_prefix_of(backend.path)
    &&& backend.relation matches Some(relation) ==> backend.kind == BackendType::Parquet
        && is_a_name(relation)
}

/// Whether an input of a view is sound: its backend is a name, its relation one or two, and it
/// maps columns that the view declares, by name, to columns of a name.
pub open spec fn sound_input(view: ViewModel, input: InputModel) -> bool {
    &&& is_a_name(input.backend)
    &&& valid_relation(input.relation)
    &&& forall|k: int|
        0 <= k < input.columns.len() ==> is_a_name((#[trigger] input.columns[k]).0) && is_a_name(
            input.columns[k].1,
        ) && declares(view.columns, input.columns[k].0)
}

/// Whether a view is sound by itself: schema and name are names; it has an input, and no two of
/// one backend; each input and each column is sound; and its source column, where it has one, is
/// a name that it declares no column of.
pub open spec fn sound_view(view: ViewModel) -> bool {
    &&& is_a_name(view.schema)
    &&& is_a_name(view.name)
    &&& view.source_column matches Some(column) ==> is_a_name(column) && !declares(
        view.columns,
        column,
    )
    &&& view.inputs.len() >= 1
    &&& forall|k: int|
        0 <= k < view.columns.len() ==> is_a_name((#[trigger] view.columns[k]).0) && valid_type(
            view.columns[k].1,
        )
    &&& forall|k: int| 0 <= k < view.inputs.len() ==> sound_input(view, #[trigger] view.inputs[k])
    &&& forall|j: int, k: int|
        0 <= j < k < view.inputs.len() ==> (#[trigger] view.inputs[j]).backend != (
        #[trigger] view.inputs[k]).backend
}

/// Whether a configuration is sound: its numbers are in range, its backends and its views are
/// sound, and no two of either share a name.
pub open spec fn sound_config(c: ConfigModel) -> bool {
    &&& c.version == 1
    &&& 1 <= c.workers <= 64
    &&& 1 <= c.threads_per_worker <= 64
    &&& c.max_rows >= 1
    &&& c.request_timeout_seconds >= 1
    &&& forall|i: int| 0 <= i < c.backends.len() ==> sound_backend(#[trigger] c.backends[i])
    &&& forall|i: int, j: int|
        0 <= i < j < c.backends.len() ==> (#[trigger] c.backends[i]).name != (
        #[trigger] c.backends[j]).name
    &&& forall|i: int| 0 <= i < c.views.len() ==> sound_view(#[trigger] c.views[i])
    &&& forall|i: int, j: int|
        0 <= i < j < c.views.len() ==> !((#[trigger] c.views[i]).schema == (
        #[trigger] c.views[j]).schema && c.views[i].name == c.views[j].name)
}

proof fn lemma_sound_backend(backend: BackendModel)
    ensures
        valid_backend(backend) <==> sound_backend(backend),
{
    lemma_names(backend.name);
    lemma_names(config::exposed_relation(backend));
    reveal_strlit("/");
    if backend.path.len() > 0 {
        assert(backend.path[0] == '/' ==> backend.path.take(1) =~= "/"@);
        if "/"@.is_prefix_of(backend.path) {
            assert(backend.path[0] == "/"@[0]);
        }
    }
    if backend.relation is None {
        reveal_strlit("data");
        let data = "data"@;
        assert forall|i: int| 0 <= i < data.len() implies name_char(#[trigger] data[i], i) by {
        }
    }
}

proof fn lemma_declares(entries: Seq<columns::Entry>, name: Seq<char>)
    ensures
        columns::lookup(entries, name) is Some <==> declares(entries, name),
    decreases entries.len(),
{
    if entries.len() > 0 {
        let tail = entries.drop_first();
        lemma_declares(tail, name);
        if declares(tail, name) {
            let k = choose|k: int| 0 <= k < tail.len() && (#[trigger] tail[k]).0 == name;
            assert(entries[k + 1].0 == name);
        }
        if declares(entries, name) && entries[0].0 != name {
            let k = choose|k: int| 0 <= k < entries.len() && (#[trigger] entries[k]).0 == name;
            assert(tail[k - 1].0 == name);
        }
        if entries[0].0 == name {
            assert(declares(entries, name));
        }
    }
}

proof fn lemma_sound_input(view: ViewModel, input: InputModel)
    ensures
        valid_input(view, input) <==> sound_input(view, input),
{
    lemma_names(input.backend);
    assert forall|k: int| 0 <= k < input.columns.len() implies (valid_mapping(
        view,
        #[trigger] input.columns[k],
    ) <==> is_a_name(input.columns[k].0) && is_a_name(input.columns[k].1) && declares(
        view.columns,
        input.columns[k].0,
    )) by {
        lemma_names(input.columns[k].0);
        lemma_names(input.columns[k].1);
        lemma_declares(view.columns, input.columns[k].0);
    }
}

proof fn lemma_sound_view(view: ViewModel)
    ensures
        valid_view(view) <==> sound_view(view),
{
    lemma_names(view.schema);
    lemma_names(view.name);
    if let Some(column) = view.source_column {
        lemma_names(column);
        lemma_declares(view.columns, column);
    }
    assert forall|k: int| 0 <= k < view.columns.len() implies (valid_column(
        #[trigger] view.columns[k],
    ) <==> is_a_name(view.columns[k].0) && valid_type(view.columns[k].1)) by {
        lemma_names(view.columns[k].0);
    }
    assert forall|k: int| 0 <= k < view.inputs.len() implies (valid_input(
        view,
        #[trigger] view.inputs[k],
    ) <==> sound_input(view, view.inputs[k])) by {
        lemma_sound_input(view, view.inputs[k]);
    }
    let same = |a: InputModel, b: InputModel| same_input_backend(a, b);
    if order::clash(view.inputs, same) {
        let (j, k) = choose|j: int, k: int|
            0 <= j < k < view.inputs.len() && #[trigger] same(view.inputs[j], view.inputs[k]);
        assert(view.inputs[j].backend == view.inputs[k].backend);
    }
    if exists|j: int, k: int|
        0 <= j < k < view.inputs.len() && (#[trigger] view.inputs[j]).backend == (
        #[trigger] view.inputs[k]).backend {
        let (j, k) = choose|j: int, k: int|
            0 <= j < k < view.inputs.len() && (#[trigger] view.inputs[j]).backend == (
            #[trigger] view.inputs[k]).backend;
        assert(same(view.inputs[j], view.inputs[k]));
    }
}

proof fn lemma_sound(c: ConfigModel)
    ensures
        valid_config(c) <==> sound_config(c),
{
    assert forall|i: int| 0 <= i < c.backends.len() implies (valid_backend(
        #[trigger] c.backends[i],
    ) <==> sound_backend(c.backends[i])) by {
        lemma_sound_backend(c.backends[i]);
    }
    assert forall|i: int| 0 <= i < c.views.len() implies (valid_view(#[trigger] c.views[i])
        <==> sound_view(c.views[i])) by {
        lemma_sound_view(c.views[i]);
    }
    let same_backend = |a: BackendModel, b: BackendModel| same_backend_name(a, b);
    let same_view = |a: ViewModel, b: ViewModel| same_view_name(a, b);
    if order::clash(c.backends, same_backend) {
        let (j, k) = choose|j: int, k: int|
            0 <= j < k < c.backends.len() && #[trigger] same_backend(c.backends[j], c.backends[k]);
        assert(c.backends[j].name == c.backends[k].name);
    }
    if exists|j: int, k: int|
        0 <= j < k < c.backends.len() && (#[trigger] c.backends[j]).name == (
        #[trigger] c.backends[k]).name {
        let (j, k) = choose|j: int, k: int|
            0 <= j < k < c.backends.len() && (#[trigger] c.backends[j]).name == (
            #[trigger] c.backends[k]).name;
        assert(same_backend(c.backends[j], c.backends[k]));
    }
    if order::clash(c.views, same_view) {
        let (j, k) = choose|j: int, k: int|
            0 <= j < k < c.views.len() && #[trigger] same_view(c.views[j], c.views[k]);
        assert(c.views[j].schema == c.views[k].schema && c.views[j].name == c.views[k].name);
    }
    if exists|j: int, k: int|
        0 <= j < k < c.views.len() && (#[trigger] c.views[j]).schema == (
        #[trigger] c.views[k]).schema && c.views[j].name == c.views[k].name {
        let (j, k) = choose|j: int, k: int|
            0 <= j < k < c.views.len() && (#[trigger] c.views[j]).schema == (
            #[trigger] c.views[k]).schema && c.views[j].name == c.views[k].name;
        assert(same_view(c.views[j], c.views[k]));
    }
}

/// A configuration is loaded exactly where what it means is sound, and saved exactly where it is.
pub proof fn sound_configurations_are_accepted(
    parts: &ConfigParts,
    parallelism: Option<usize>,
    meant: Config,
    r: Result<Config, ConfigError>,
    config: &Config,
    s: Result<ConfigParts, ConfigError>,
)
    requires
        call_ensures(load_config, (parts, parallelism), r),
        call_ensures(ConfigParts::complete, (parts, parallelism), meant),
        call_ensures(save_config, (config,), s),
    ensures
        r is Ok <==> sound_config(meant@),
        s is Ok <==> sound_config(config@),
{
    lemma_sound(meant@);
    lemma_sound(config@);
}

/// A configuration that is loaded has the numbers, the backends and the views that are meant,
/// each as often as it is, with the backends listed by name and the views by schema and name.
pub proof fn loading_only_lists_by_name(
    parts: &ConfigParts,
    parallelism: Option<usize>,
    meant: Config,
    config: Config,
)
    requires
        call_ensures(load_config, (parts, parallelism), Ok(config)),
        call_ensures(ConfigParts::complete, (parts, parallelism), meant),
    ensures
        config@ == (ConfigModel { backends: config@.backends, views: config@.views, ..meant@ }),
        config@.backends.to_multiset() == meant@.backends.to_multiset(),
        config@.views.to_multiset() == meant@.views.to_multiset(),
        forall|i: int, j: int|
            0 <= i < j < config@.backends.len() ==> !order::precedes(
                (#[trigger] config@.backends[j]).name,
                (#[trigger] config@.backends[i]).name,
            ),
        forall|i: int, j: int|
            0 <= i < j < config@.views.len() ==> !order::precedes(
                (#[trigger] config@.views[j]).schema + "."@ + config@.views[j].name,
                (#[trigger] config@.views[i]).schema + "."@ + config@.views[i].name,
            ),
{
    let m = meant@;
    order::stable_sort_keeps_the_items(m.backends, Backend::key());
    order::stable_sort_keeps_the_items(m.views, LogicalView::key());
    order::stable_sort_sorts(m.backends, Backend::key());
    order::stable_sort_sorts(m.views, LogicalView::key());
    let backends = config@.backends;
    let views = config@.views;
    let by_name = Backend::key();
    let by_schema = LogicalView::key();
    assert forall|i: int, j: int| 0 <= i < j < backends.len() implies !order::precedes(
        (#[trigger] backends[j]).name,
        (#[trigger] backends[i]).name,
    ) by {
        assert(!order::precedes(by_name(backends[j]), by_name(backends[i])));
    }
    assert forall|i: int, j: int| 0 <= i < j < views.len() implies !order::precedes(
        (#[trigger] views[j]).schema + "."@ + views[j].name,
        (#[trigger] views[i]).schema + "."@ + views[i].name,
    ) by {
        assert(!order::precedes(by_schema(views[j]), by_schema(views[i])));
    }
}

/// What was saved, once it is loaded, is the configuration that was saved, listed by name, on
/// every machine.
pub proof fn saved_configurations_are_loaded_again(
    config: &Config,
    parts: ConfigParts,
    parallelism: Option<usize>,
    r: Result<Config, ConfigError>,
)
    requires
        call_ensures(save_config, (config,), Ok(parts)),
        call_ensures(load_config, (&parts, parallelism), r),
    ensures
        r matches Ok(again) && again@ == arranged(config@),
{
    saved_configurations_are_loaded_back(config@, parts, parallelism);
    validation_accepts_the_valid(config::completed_config(parts, parallelism));
}

/// The numbers are looked at first, in their order: the version, the workers, the threads, the
/// rows and the time. The error of the first that is out of range is told, whatever the backends
/// and the views are.
pub proof fn numbers_are_looked_at_first(
    parts: &ConfigParts,
    parallelism: Option<usize>,
    meant: Config,
    r: Result<Config, ConfigError>,
)
    requires
        call_ensures(load_config, (parts, parallelism), r),
        call_ensures(ConfigParts::complete, (parts, parallelism), meant),
    ensures
        ({
            let c = meant@;
            let workers = 1 <= c.workers <= 64;
            let threads = 1 <= c.threads_per_worker <= 64;
            &&& c.version != 1 ==> (r matches Err(error) && error@ == Defect::UnsupportedVersion(
                c.version,
            ))
            &&& c.version == 1 && !workers ==> (r matches Err(error) && error@
                == Defect::WorkersOutOfRange)
            &&& c.version == 1 && workers && !threads ==> (r matches Err(error) && error@
                == Defect::ThreadsOutOfRange)
            &&& c.version == 1 && workers && threads && c.max_rows == 0 ==> (r matches Err(error)
                && error@ == Defect::NoRows)
            &&& c.version == 1 && workers && threads && c.max_rows > 0
                && c.request_timeout_seconds == 0 ==> (r matches Err(error) && error@
                == Defect::NoTimeout)
        }),
{
}

proof fn lemma_first_of_some(from: int, end: int, check: spec_fn(int) -> Option<Defect>) -> (i: int)
    requires
        first_of(from, end, check) is Some,
    ensures
        from <= i < end,
        check(i) == first_of(from, end, check),
        forall|j: int| from <= j < i ==> #[trigger] check(j) is None,
    decreases end - from,
{
    if check(from) is Some {
        from
    } else {
        lemma_first_of_some(from + 1, end, check)
    }
}

/// Where the numbers are in range, the error that is told is true of a backend or of a view: of
/// the first backend by name that is not sound, or, where all of them are, of the first such view.
pub proof fn errors_are_true_of_what_they_name(
    parts: &ConfigParts,
    parallelism: Option<usize>,
    meant: Config,
    error: ConfigError,
)
    requires
        call_ensures(load_config, (parts, parallelism), Err(error)),
        call_ensures(ConfigParts::complete, (parts, parallelism), meant),
        meant@.version == 1,
        1 <= meant@.workers <= 64,
        1 <= meant@.threads_per_worker <= 64,
        meant@.max_rows > 0,
        meant@.request_timeout_seconds > 0,
    ensures
        error@ is InvalidName ==> exists|i: int|
            0 <= i < meant@.backends.len() && !is_a_name((#[trigger] meant@.backends[i]).name),
        error@ matches Defect::RelativePath(path) ==> exists|i: int|
            0 <= i < meant@.backends.len() && (#[trigger] meant@.backends[i]).path == path
                && !"/"@.is_prefix_of(path),
        error@ matches Defect::UnexpectedRelation(name) ==> exists|i: int|
            0 <= i < meant@.backends.len() && (#[trigger] meant@.backends[i]).name == name
                && meant@.backends[i].kind != BackendType::Parquet
                && meant@.backends[i].relation is Some,
        error@ matches Defect::DuplicateBackend(name) ==> !(forall|i: int, j: int|
            0 <= i < j < meant@.backends.len() ==> (#[trigger] meant@.backends[i]).name != (
            #[trigger] meant@.backends[j]).name),
        error@ matches Defect::NoInputs(name) ==> exists|i: int|
            0 <= i < meant@.views.len() && (#[trigger] meant@.views[i]).schema + "."@
                + meant@.views[i].name == name && meant@.views[i].inputs.len() == 0,
        error@ matches Defect::SourceColumnTaken { view, column } ==> exists|i: int|
            0 <= i < meant@.views.len() && (#[trigger] meant@.views[i]).source_column == Some(
                column,
            ) && declares(meant@.views[i].columns, column) && meant@.views[i].schema + "."@
                + meant@.views[i].name == view,
        !(error@ is UnsupportedVersion) && !(error@ is WorkersOutOfRange)
            && !(error@ is ThreadsOutOfRange) && !(error@ is NoRows) && !(error@ is NoTimeout)
            && !(error@ is NoHome) && !(error@ is ViewNameForm),
        !(forall|i: int| 0 <= i < meant@.backends.len() ==> sound_backend(
            #[trigger] meant@.backends[i],
        )) || !(forall|i: int, j: int|
            0 <= i < j < meant@.backends.len() ==> (#[trigger] meant@.backends[i]).name != (
            #[trigger] meant@.backends[j]).name) ==> !(error@ is NoInputs)
            && !(error@ is DuplicateView) && !(error@ is SourceColumnTaken)
            && !(error@ is DuplicateInput) && !(error@ is UnknownColumn)
            && !(error@ is UnsupportedType) && !(error@ is RelationForm),
{
    let c = meant@;
    let a = arranged(c);
    order::stable_sort_keeps_the_items(c.backends, Backend::key());
    order::stable_sort_keeps_the_items(c.views, LogicalView::key());
    reveal_strlit("/");
    lemma_backends(a.backends);
    lemma_backends(c.backends);
    arranging_keeps_validity(c);
    if backends_defect(a.backends) is Some {
        let i = lemma_first_of_some(0, a.backends.len() as int, backend_check(a.backends));
        assert(error@ == backend_defect(a.backends, i)->0);
        lemma_member_kept(a.backends, c.backends, i);
        let k = choose|k: int| 0 <= k < c.backends.len() && c.backends[k] == a.backends[i];
        assert(c.backends[k] == a.backends[i]);
        lemma_names(c.backends[k].name);
        if error@ is DuplicateBackend {
            let j = choose|j: int|
                0 <= j < i && (#[trigger] a.backends[j]).name == a.backends[i].name;
            let same = |x: BackendModel, y: BackendModel| same_backend_name(x, y);
            assert(same(a.backends[j], a.backends[i]));
            assert(order::clash(a.backends, same));
            order::clashes_survive_reordering(a.backends, c.backends, same);
            let (p, q) = choose|p: int, q: int|
                0 <= p < q < c.backends.len() && #[trigger] same(c.backends[p], c.backends[q]);
            assert(c.backends[p].name == c.backends[q].name);
        }
        if "/"@.is_prefix_of(c.backends[k].path) {
            assert(c.backends[k].path[0] == "/"@[0]);
        }
    } else {
        assert(valid_backends(a.backends));
        assert(valid_backends(c.backends)) by {
            lemma_valid_backends_both_ways(c);
        }
        assert forall|i: int| 0 <= i < c.backends.len() implies sound_backend(
            #[trigger] c.backends[i],
        ) by {
            lemma_sound_backend(c.backends[i]);
            assert(valid_backend(c.backends[i]));
        }
        let same = |x: BackendModel, y: BackendModel| same_backend_name(x, y);
        assert forall|i: int, j: int| 0 <= i < j < c.backends.len() implies (
        #[trigger] c.backends[i]).name != (#[trigger] c.backends[j]).name by {
            if c.backends[i].name == c.backends[j].name {
                assert(same(c.backends[i], c.backends[j]));
            }
        }
        let i = lemma_first_of_some(0, a.views.len() as int, view_check(a.views));
        assert(error@ == view_defect(a.views, i)->0);
        lemma_member_kept(a.views, c.views, i);
        let k = choose|k: int| 0 <= k < c.views.len() && c.views[k] == a.views[i];
        assert(c.views[k] == a.views[i]);
        let view = c.views[k];
        lemma_body_defect_kinds(view);
        if let Some(column) = view.source_column {
            lemma_declares(view.columns, column);
        }
    }
}

proof fn lemma_member_kept<M>(a: Seq<M>, c: Seq<M>, i: int)
    requires
        a.to_multiset() == c.to_multiset(),
        0 <= i < a.len(),
    ensures
        exists|k: int| 0 <= k < c.len() && c[k] == a[i],
{
    broadcast use vstd::seq_lib::group_to_multiset_ensures;

    assert(a.contains(a[i]));
    assert(a.contains(a[i]) <==> a.to_multiset().count(a[i]) > 0);
    assert(c.contains(a[i]) <==> c.to_multiset().count(a[i]) > 0);
}

proof fn lemma_valid_backends_both_ways(c: ConfigModel)
    ensures
        valid_backends(arranged(c).backends) <==> valid_backends(c.backends),
{
    let a = arranged(c);
    let same_backend = |a: BackendModel, b: BackendModel| same_backend_name(a, b);
    let backend_ok = |b: BackendModel| valid_backend(b);
    order::stable_sort_keeps_the_items(c.backends, Backend::key());
    order::clashes_survive_reordering(c.backends, a.backends, same_backend);
    order::clashes_survive_reordering(a.backends, c.backends, same_backend);
    order::properties_survive_reordering(c.backends, a.backends, backend_ok);
    order::properties_survive_reordering(a.backends, c.backends, backend_ok);
    assert(order::every(c.backends, backend_ok) <==> (forall|i: int|
        0 <= i < c.backends.len() ==> valid_backend(#[trigger] c.backends[i])));
    assert(order::every(a.backends, backend_ok) <==> (forall|i: int|
        0 <= i < a.backends.len() ==> valid_backend(#[trigger] a.backends[i])));
}

/// What can be wrong with a view behind its name, by kind.
proof fn lemma_body_defect_kinds(view: ViewModel)
    ensures
        view_body_defect(view) matches Some(defect) ==> {
            &&& defect is InvalidIdentifier || defect is SourceColumnTaken || defect is NoInputs
                || defect is UnsupportedType || defect is RelationForm || defect is DuplicateInput
                || defect is UnknownColumn
            &&& defect is NoInputs ==> view.inputs.len() == 0 && defect == Defect::NoInputs(
                config::qualified(view),
            )
            &&& defect is SourceColumnTaken ==> (view.source_column matches Some(column)
                && columns::lookup(view.columns, column) is Some && defect == (
            Defect::SourceColumnTaken { view: config::qualified(view), column }))
        },
{
    if source_column_defect(view) is None && view.inputs.len() > 0 {
        let columns = first_of(0, view.columns.len() as int, column_check(view));
        let inputs = first_of(0, view.inputs.len() as int, input_check(view));
        if columns is Some {
            let k = lemma_first_of_some(0, view.columns.len() as int, column_check(view));
            assert(columns == column_defect(view, k));
        } else if inputs is Some {
            let k = lemma_first_of_some(0, view.inputs.len() as int, input_check(view));
            assert(inputs == input_defect(view, k));
            let input = view.inputs[k];
            let parts = text::split_on(input.relation, '.');
            if relation_defect(input.relation) is Some && parts.len() <= 2 {
                let p = lemma_first_of_some(0, parts.len() as int, part_check(parts));
            }
            let mapped = first_of(0, input.columns.len() as int, mapping_check(view, input));
            if mapped is Some {
                let m = lemma_first_of_some(
                    0,
                    input.columns.len() as int,
                    mapping_check(view, input),
                );
                assert(mapped == mapping_defect(view, input, m));
            }
        }
    }
}

/// Looking a configuration over lists its backends and its views by name and changes nothing
/// else, and it is accepted exactly where it is sound.
pub proof fn looking_over_lists_by_name(config: &mut Config, r: Result<(), ConfigError>)
    requires
        call_ensures(validate_config, (config,), r),
    ensures
        r is Ok <==> sound_config(old(config)@),
        final(config)@ == (ConfigModel {
            backends: final(config)@.backends,
            views: final(config)@.views,
            ..old(config)@
        }),
        final(config)@.backends.to_multiset() == old(config)@.backends.to_multiset(),
        final(config)@.views.to_multiset() == old(config)@.views.to_multiset(),
        r is Ok ==> order::sorted_by(final(config)@.backends, |b: BackendModel| b.name),
        r is Ok ==> order::sorted_by(
            final(config)@.views,
            |v: ViewModel| v.schema + "."@ + v.name,
        ),
{
    let c = old(config)@;
    lemma_sound(c);
    order::stable_sort_keeps_the_items(c.backends, Backend::key());
    order::stable_sort_keeps_the_items(c.views, LogicalView::key());
    order::stable_sort_sorts(c.backends, Backend::key());
    order::stable_sort_sorts(c.views, LogicalView::key());
    if r is Ok {
        let backends = final(config)@.backends;
        let views = final(config)@.views;
        let by_name = Backend::key();
        let by_schema = LogicalView::key();
        let name = |b: BackendModel| b.name;
        let schema = |v: ViewModel| v.schema + "."@ + v.name;
        assert forall|i: int, j: int|
            #![trigger backends[i], backends[j]]
            0 <= i < j < backends.len() implies !order::precedes(
            name(backends[j]),
            name(backends[i]),
        ) by {
            assert(!order::precedes(by_name(backends[j]), by_name(backends[i])));
        }
        assert forall|i: int, j: int|
            #![trigger views[i], views[j]]
            0 <= i < j < views.len() implies !order::precedes(
            schema(views[j]),
            schema(views[i]),
        ) by {
            assert(!order::precedes(by_schema(views[j]), by_schema(views[i])));
        }
    }
}

/// What is reported of a view behind its name is true of it: an input that stands twice, a column
/// that an input maps and the view does not declare, a type that is none, or a text that is no
/// name.
pub proof fn defects_of_a_view_are_true_of_it(view: ViewModel)
    ensures
        view_body_defect(view) matches Some(defect) ==> {
            &&& defect matches Defect::DuplicateInput { view: named, backend } ==> named
                == view.schema + "."@ + view.name && exists|j: int, k: int|
                0 <= j < k < view.inputs.len() && (#[trigger] view.inputs[j]).backend == backend
                    && (#[trigger] view.inputs[k]).backend == backend
            &&& defect matches Defect::UnknownColumn { view: named, backend, column } ==> named
                == view.schema + "."@ + view.name && !declares(view.columns, column)
                && exists|k: int|
                0 <= k < view.inputs.len() && (#[trigger] view.inputs[k]).backend == backend
                    && declares(view.inputs[k].columns, column)
            &&& defect matches Defect::UnsupportedType(value) ==> !valid_type(value)
                && exists|k: int|
                0 <= k < view.columns.len() && (#[trigger] view.columns[k]).1 == value
            &&& defect matches Defect::InvalidIdentifier { role, value } ==> !is_a_name(value)
        },
{
    lemma_body_defect_kinds(view);
    if let Some(column) = view.source_column {
        lemma_names(column);
    }
    if source_column_defect(view) is None && view.inputs.len() > 0 {
        let columns = first_of(0, view.columns.len() as int, column_check(view));
        let inputs = first_of(0, view.inputs.len() as int, input_check(view));
        if columns is Some {
            let k = lemma_first_of_some(0, view.columns.len() as int, column_check(view));
            assert(columns == column_defect(view, k));
            lemma_names(view.columns[k].0);
        } else if inputs is Some {
            let k = lemma_first_of_some(0, view.inputs.len() as int, input_check(view));
            assert(inputs == input_defect(view, k));
            let input = view.inputs[k];
            lemma_names(input.backend);
            let parts = text::split_on(input.relation, '.');
            if relation_defect(input.relation) is Some && parts.len() <= 2 {
                let p = lemma_first_of_some(0, parts.len() as int, part_check(parts));
                lemma_names(parts[p]);
            }
            if repeats_an_input(view.inputs, k) {
                let j = choose|j: int|
                    0 <= j < k && (#[trigger] view.inputs[j]).backend == view.inputs[k].backend;
                assert(view.inputs[j].backend == input.backend);
            }
            let mapped = first_of(0, input.columns.len() as int, mapping_check(view, input));
            if mapped is Some {
                let m = lemma_first_of_some(
                    0,
                    input.columns.len() as int,
                    mapping_check(view, input),
                );
                assert(mapped == mapping_defect(view, input, m));
                lemma_names(input.columns[m].0);
                lemma_names(input.columns[m].1);
                lemma_declares(view.columns, input.columns[m].0);
                assert(declares(input.columns, input.columns[m].0));
            }
        }
    }
}

} // verus!
