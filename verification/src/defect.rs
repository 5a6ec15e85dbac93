//! What can be wrong with a configuration, and how it is reported.
use vstd::prelude::*;

use crate::numeral;

verus! {

/// What an identifier stands for in the configuration.
#[derive(Debug, Clone, Copy, PartialEq, Eq, Structural)]
pub enum IdentifierRole {
    ViewSchema,
    ViewName,
    RelationPart,
    ParquetRelation,
    SourceColumn,
    LogicalColumn,
    InputBackend,
    MappedLogicalColumn,
    MappedPhysicalColumn,
}

pub open spec fn role_label(role: IdentifierRole) -> Seq<char> {
    match role {
        IdentifierRole::ViewSchema => "view schema"@,
        IdentifierRole::ViewName => "view name"@,
        IdentifierRole::RelationPart => "relation identifier"@,
        IdentifierRole::ParquetRelation => "Parquet relation"@,
        IdentifierRole::SourceColumn => "source column"@,
        IdentifierRole::LogicalColumn => "logical column"@,
        IdentifierRole::InputBackend => "input backend"@,
        IdentifierRole::MappedLogicalColumn => "mapped logical column"@,
        IdentifierRole::MappedPhysicalColumn => "mapped physical column"@,
    }
}

impl IdentifierRole {
    /// What reports call such an identifier.
    pub fn label(&self) -> (r: &'static str)
        ensures
            r@ == role_label(*self),
    {
        match self {
            IdentifierRole::ViewSchema => "view schema",
            IdentifierRole::ViewName => "view name",
            IdentifierRole::RelationPart => "relation identifier",
            IdentifierRole::ParquetRelation => "Parquet relation",
            IdentifierRole::SourceColumn => "source column",
            IdentifierRole::LogicalColumn => "logical column",
            IdentifierRole::InputBackend => "input backend",
            IdentifierRole::MappedLogicalColumn => "mapped logical column",
            IdentifierRole::MappedPhysicalColumn => "mapped physical column",
        }
    }
}

/// The reason why a configuration, or a part of one, is not accepted.
#[derive(Debug)]
pub enum ConfigError {
    UnsupportedVersion(u32),
    WorkersOutOfRange,
    ThreadsOutOfRange,
    NoRows,
    NoTimeout,
    InvalidName,
    InvalidIdentifier { role: IdentifierRole, value: String },
    DuplicateBackend(String),
    RelativePath(String),
    UnexpectedRelation(String),
    DuplicateView(String),
    SourceColumnTaken { view: String, column: String },
    NoInputs(String),
    UnsupportedType(String),
    RelationForm,
    ViewNameForm,
    DuplicateInput { view: String, backend: String },
    UnknownColumn { view: String, backend: String, column: String },
    NoHome,
}

/// The model of a [`ConfigError`].
pub enum Defect {
    UnsupportedVersion(u32),
    WorkersOutOfRange,
    ThreadsOutOfRange,
    NoRows,
    NoTimeout,
    InvalidName,
    InvalidIdentifier { role: IdentifierRole, value: Seq<char> },
    DuplicateBackend(Seq<char>),
    RelativePath(Seq<char>),
    UnexpectedRelation(Seq<char>),
    DuplicateView(Seq<char>),
    SourceColumnTaken { view: Seq<char>, column: Seq<char> },
    NoInputs(Seq<char>),
    UnsupportedType(Seq<char>),
    RelationForm,
    ViewNameForm,
    DuplicateInput { view: Seq<char>, backend: Seq<char> },
    UnknownColumn { view: Seq<char>, backend: Seq<char>, column: Seq<char> },
    NoHome,
}

impl View for ConfigError {
    type V = Defect;

    open spec fn view(&self) -> Defect {
        match self {
            ConfigError::UnsupportedVersion(version) => Defect::UnsupportedVersion(*version),
            ConfigError::WorkersOutOfRange => Defect::WorkersOutOfRange,
            ConfigError::ThreadsOutOfRange => Defect::ThreadsOutOfRange,
            ConfigError::NoRows => Defect::NoRows,
            ConfigError::NoTimeout => Defect::NoTimeout,
            ConfigError::InvalidName => Defect::InvalidName,
            ConfigError::InvalidIdentifier { role, value } => Defect::InvalidIdentifier {
                role: *role,
                value: value@,
            },
            ConfigError::DuplicateBackend(name) => Defect::DuplicateBackend(name@),
            ConfigError::RelativePath(path) => Defect::RelativePath(path@),
            ConfigError::UnexpectedRelation(name) => Defect::UnexpectedRelation(name@),
            ConfigError::DuplicateView(view) => Defect::DuplicateView(view@),
            ConfigError::SourceColumnTaken { view, column } => Defect::SourceColumnTaken {
                view: view@,
                column: column@,
            },
            ConfigError::NoInputs(view) => Defect::NoInputs(view@),
            ConfigError::UnsupportedType(value) => Defect::UnsupportedType(value@),
            ConfigError::RelationForm => Defect::RelationForm,
            ConfigError::ViewNameForm => Defect::ViewNameForm,
            ConfigError::DuplicateInput { view, backend } => Defect::DuplicateInput {
                view: view@,
                backend: backend@,
            },
            ConfigError::UnknownColumn { view, backend, column } => Defect::UnknownColumn {
                view: view@,
                backend: backend@,
                column: column@,
            },
            ConfigError::NoHome => Defect::NoHome,
        }
    }
}

/// The report of a defect, the reason behind what it is the reason of.
pub open spec fn defect_text(defect: Defect) -> Seq<char> {
    match defect {
        Defect::UnsupportedVersion(version) => "unsupported configuration version "@
            + numeral::numeral(version as nat),
        Defect::WorkersOutOfRange => "workers must be between 1 and 64"@,
        Defect::ThreadsOutOfRange => "threads_per_worker must be between 1 and 64"@,
        Defect::NoRows => "max_rows must be greater than zero"@,
        Defect::NoTimeout => "request_timeout_seconds must be greater than zero"@,
        Defect::InvalidName => "identifier must match [A-Za-z_][A-Za-z0-9_]{0,62}"@,
        Defect::InvalidIdentifier { role, value } => "invalid "@ + role_label(role) + " '"@ + value
            + "': "@ + "identifier must match [A-Za-z_][A-Za-z0-9_]{0,62}"@,
        Defect::DuplicateBackend(name) => "duplicate backend name: "@ + name,
        Defect::RelativePath(path) => "backend path must be absolute: "@ + path,
        Defect::UnexpectedRelation(name) => "backend "@ + name
            + ": relation is only valid for Parquet backends"@,
        Defect::DuplicateView(view) => "duplicate view name: "@ + view,
        Defect::SourceColumnTaken { view, column } => "view "@ + view + " source column '"@ + column
            + "' duplicates a logical column"@,
        Defect::NoInputs(view) => "view "@ + view + " must have at least one input"@,
        Defect::UnsupportedType(value) => "logical column type contains unsupported characters: "@
            + value,
        Defect::RelationForm => "relation must be TABLE or SCHEMA.TABLE"@,
        Defect::ViewNameForm => "view name must be NAME or SCHEMA.NAME"@,
        Defect::DuplicateInput { view, backend } => "view "@ + view
            + " contains duplicate input backend "@ + backend,
        Defect::UnknownColumn { view, backend, column } => "view "@ + view + " input "@ + backend
            + " maps unknown logical column "@ + column,
        Defect::NoHome => "could not determine the user configuration directory"@,
    }
}

impl ConfigError {
    /// The report of the error.
    pub fn message(&self) -> (r: String)
        ensures
            r@ == defect_text(self@),
    {
        match self {
            ConfigError::UnsupportedVersion(version) => {
                let mut r = "unsupported configuration version ".to_owned();
                r.append(numeral::numeral_of(*version as u128).as_str());
                r
            },
            ConfigError::WorkersOutOfRange => "workers must be between 1 and 64".to_owned(),
            ConfigError::ThreadsOutOfRange => "threads_per_worker must be between 1 and 64".to_owned(),
            ConfigError::NoRows => "max_rows must be greater than zero".to_owned(),
            ConfigError::NoTimeout => "request_timeout_seconds must be greater than zero".to_owned(),
            ConfigError::InvalidName => "identifier must match [A-Za-z_][A-Za-z0-9_]{0,62}".to_owned(),
            ConfigError::InvalidIdentifier { role, value } => {
                let mut r = "invalid ".to_owned();
                r.append(role.label());
                r.append(" '");
                r.append(value.as_str());
                r.append("': ");
                r.append("identifier must match [A-Za-z_][A-Za-z0-9_]{0,62}");
                r
            },
            ConfigError::DuplicateBackend(name) => {
                let mut r = "duplicate backend name: ".to_owned();
                r.append(name.as_str());
                r
            },
            ConfigError::RelativePath(path) => {
                let mut r = "backend path must be absolute: ".to_owned();
                r.append(path.as_str());
                r
            },
            ConfigError::UnexpectedRelation(name) => {
                let mut r = "backend ".to_owned();
                r.append(name.as_str());
                r.append(": relation is only valid for Parquet backends");
                r
            },
            ConfigError::DuplicateView(view) => {
                let mut r = "duplicate view name: ".to_owned();
                r.append(view.as_str());
                r
            },
            ConfigError::SourceColumnTaken { view, column } => {
                let mut r = "view ".to_owned();
                r.append(view.as_str());
                r.append(" source column '");
                r.append(column.as_str());
                r.append("' duplicates a logical column");
                r
            },
            ConfigError::NoInputs(view) => {
                let mut r = "view ".to_owned();
                r.append(view.as_str());
                r.append(" must have at least one input");
                r
            },
            ConfigError::UnsupportedType(value) => {
                let mut r = "logical column type contains unsupported characters: ".to_owned();
                r.append(value.as_str());
                r
            },
            ConfigError::RelationForm => "relation must be TABLE or SCHEMA.TABLE".to_owned(),
            ConfigError::ViewNameForm => "view name must be NAME or SCHEMA.NAME".to_owned(),
            ConfigError::DuplicateInput { view, backend } => {
                let mut r = "view ".to_owned();
                r.append(view.as_str());
                r.append(" contains duplicate input backend ");
                r.append(backend.as_str());
                r
            },
            ConfigError::UnknownColumn { view, backend, column } => {
                let mut r = "view ".to_owned();
                r.append(view.as_str());
                r.append(" input ");
                r.append(backend.as_str());
                r.append(" maps unknown logical column ");
                r.append(column.as_str());
                r
            },
            ConfigError::NoHome => "could not determine the user configuration directory".to_owned(),
        }
    }
}

// ---------------------------------------------------------------------------
// Laws
// ---------------------------------------------------------------------------

/// The report of an error names what the error is about: the version, the backend, the path, the
/// view, the column or the text that was given.
pub proof fn reports_name_what_is_wrong(error: &ConfigError, r: String)
    requires
        call_ensures(ConfigError::message, (error,), r),
    ensures
        error matches ConfigError::UnsupportedVersion(version) ==> {
            let head = "unsupported configuration version "@;
            head.is_prefix_of(r@) && r@.skip(head.len() as int) == numeral::numeral(version as nat)
        },
        error matches ConfigError::DuplicateBackend(name) ==> {
            let head = "duplicate backend name: "@;
            head.is_prefix_of(r@) && r@.skip(head.len() as int) == name@
        },
        error matches ConfigError::RelativePath(path) ==> {
            let head = "backend path must be absolute: "@;
            head.is_prefix_of(r@) && r@.skip(head.len() as int) == path@
        },
        error matches ConfigError::DuplicateView(view) ==> {
            let head = "duplicate view name: "@;
            head.is_prefix_of(r@) && r@.skip(head.len() as int) == view@
        },
        error matches ConfigError::UnsupportedType(value) ==> {
            let head = "logical column type contains unsupported characters: "@;
            head.is_prefix_of(r@) && r@.skip(head.len() as int) == value@
        },
        error matches ConfigError::UnexpectedRelation(name) ==> {
            let head = "backend "@ + name@ + ": relation"@;
            let end = ": relation is only valid for Parquet backends"@;
            head.is_prefix_of(r@) && end.is_suffix_of(r@)
        },
        error matches ConfigError::SourceColumnTaken { view, column } ==> {
            let head = "view "@ + view@ + " source column '"@ + column@ + "'"@;
            let end = "' duplicates a logical column"@;
            head.is_prefix_of(r@) && end.is_suffix_of(r@)
        },
        error matches ConfigError::NoInputs(view) ==> {
            let head = "view "@ + view@ + " "@;
            let end = " must have at least one input"@;
            head.is_prefix_of(r@) && end.is_suffix_of(r@)
        },
        error matches ConfigError::DuplicateInput { view, backend } ==> {
            let head = "view "@ + view@ + " contains duplicate input "@;
            let end = "backend "@ + backend@;
            head.is_prefix_of(r@) && end.is_suffix_of(r@)
        },
        error matches ConfigError::UnknownColumn { view, backend, column } ==> {
            let head = "view "@ + view@ + " input "@ + backend@ + " maps "@;
            let end = " unknown logical column "@ + column@;
            head.is_prefix_of(r@) && end.is_suffix_of(r@)
        },
        error matches ConfigError::InvalidIdentifier { role, value } ==> {
            let head = "invalid "@ + role_label(*role) + " '"@ + value@ + "': "@;
            let end = "identifier must match [A-Za-z_][A-Za-z0-9_]{0,62}"@;
            head.is_prefix_of(r@) && end.is_suffix_of(r@)
        },
        error is WorkersOutOfRange ==> r@ == "workers must be between 1 and 64"@,
        error is ThreadsOutOfRange ==> r@ == "threads_per_worker must be between 1 and 64"@,
        error is NoRows ==> r@ == "max_rows must be greater than zero"@,
        error is NoTimeout ==> r@ == "request_timeout_seconds must be greater than zero"@,
        error is InvalidName ==> r@ == "identifier must match [A-Za-z_][A-Za-z0-9_]{0,62}"@,
        error is RelationForm ==> r@ == "relation must be TABLE or SCHEMA.TABLE"@,
        error is ViewNameForm ==> r@ == "view name must be NAME or SCHEMA.NAME"@,
        error is NoHome ==> r@ == "could not determine the user configuration directory"@,
{
    match error {
        ConfigError::UnsupportedVersion(version) => {
            let head = "unsupported configuration version "@;
            assert(r@.take(head.len() as int) =~= head);
            assert(r@.skip(head.len() as int) =~= numeral::numeral(*version as nat));
        },
        ConfigError::DuplicateBackend(name) => {
            let head = "duplicate backend name: "@;
            assert(r@.take(head.len() as int) =~= head);
            assert(r@.skip(head.len() as int) =~= name@);
        },
        ConfigError::RelativePath(path) => {
            let head = "backend path must be absolute: "@;
            assert(r@.take(head.len() as int) =~= head);
            assert(r@.skip(head.len() as int) =~= path@);
        },
        ConfigError::DuplicateView(view) => {
            let head = "duplicate view name: "@;
            assert(r@.take(head.len() as int) =~= head);
            assert(r@.skip(head.len() as int) =~= view@);
        },
        ConfigError::UnsupportedType(value) => {
            let head = "logical column type contains unsupported characters: "@;
            assert(r@.take(head.len() as int) =~= head);
            assert(r@.skip(head.len() as int) =~= value@);
        },
        ConfigError::UnexpectedRelation(name) => {
            reveal_strlit(": relation is only valid for Parquet backends");
            reveal_strlit(": relation");
            let head = "backend "@ + name@ + ": relation"@;
            let end = ": relation is only valid for Parquet backends"@;
            assert(r@.take(head.len() as int) =~= head);
            assert(r@.skip(r@.len() - end.len()) =~= end);
        },
        ConfigError::SourceColumnTaken { view, column } => {
            reveal_strlit("' duplicates a logical column");
            reveal_strlit("'");
            let head = "view "@ + view@ + " source column '"@ + column@ + "'"@;
            let end = "' duplicates a logical column"@;
            assert(r@.take(head.len() as int) =~= head);
            assert(r@.skip(r@.len() - end.len()) =~= end);
        },
        ConfigError::NoInputs(view) => {
            reveal_strlit(" must have at least one input");
            reveal_strlit(" ");
            let head = "view "@ + view@ + " "@;
            let end = " must have at least one input"@;
            assert(r@.take(head.len() as int) =~= head);
            assert(r@.skip(r@.len() - end.len()) =~= end);
        },
        ConfigError::DuplicateInput { view, backend } => {
            reveal_strlit(" contains duplicate input backend ");
            reveal_strlit(" contains duplicate input ");
            reveal_strlit("backend ");
            let head = "view "@ + view@ + " contains duplicate input "@;
            let end = "backend "@ + backend@;
            assert(r@.take(head.len() as int) =~= head);
            assert(r@.skip(r@.len() - end.len()) =~= end);
        },
        ConfigError::UnknownColumn { view, backend, column } => {
            reveal_strlit(" maps unknown logical column ");
            reveal_strlit(" maps ");
            reveal_strlit(" unknown logical column ");
            let head = "view "@ + view@ + " input "@ + backend@ + " maps "@;
            let end = " unknown logical column "@ + column@;
            assert(r@.take(head.len() as int) =~= head);
            assert(r@.skip(r@.len() - end.len()) =~= end);
        },
        ConfigError::InvalidIdentifier { role, value } => {
            let head = "invalid "@ + role_label(*role) + " '"@ + value@ + "': "@;
            let end = "identifier must match [A-Za-z_][A-Za-z0-9_]{0,62}"@;
            assert(r@.take(head.len() as int) =~= head);
            assert(r@.skip(r@.len() - end.len()) =~= end);
        },
        _ => {},
    }
}

/// Each role of an identifier has a label of its own.
pub proof fn labels_tell_roles_apart(
    a: IdentifierRole,
    b: IdentifierRole,
    la: &'static str,
    lb: &'static str,
)
    requires
        call_ensures(IdentifierRole::label, (&a,), la),
        call_ensures(IdentifierRole::label, (&b,), lb),
    ensures
        la@ == lb@ <==> a == b,
        a == IdentifierRole::ViewSchema <==> la@ == "view schema"@,
        a == IdentifierRole::ViewName <==> la@ == "view name"@,
        a == IdentifierRole::RelationPart <==> la@ == "relation identifier"@,
        a == IdentifierRole::ParquetRelation <==> la@ == "Parquet relation"@,
        a == IdentifierRole::SourceColumn <==> la@ == "source column"@,
        a == IdentifierRole::LogicalColumn <==> la@ == "logical column"@,
        a == IdentifierRole::InputBackend <==> la@ == "input backend"@,
        a == IdentifierRole::MappedLogicalColumn <==> la@ == "mapped logical column"@,
        a == IdentifierRole::MappedPhysicalColumn <==> la@ == "mapped physical column"@,
{
    reveal_strlit("view schema");
    reveal_strlit("view name");
    reveal_strlit("relation identifier");
    reveal_strlit("Parquet relation");
    reveal_strlit("source column");
    reveal_strlit("logical column");
    reveal_strlit("input backend");
    reveal_strlit("mapped logical column");
    reveal_strlit("mapped physical column");
    assert("view schema"@.len() == 11);
    assert("view name"@.len() == 9);
    assert("relation identifier"@.len() == 19);
    assert("Parquet relation"@.len() == 16);
    assert("source column"@.len() == 13);
    assert("logical column"@.len() == 14);
    assert("input backend"@.len() == 13);
    assert("mapped logical column"@.len() == 21);
    assert("mapped physical column"@.len() == 22);
    assert("source column"@[0] != "input backend"@[0]);
}

} // verus!
