//! The SQL that makes the registered sources known to a worker, and that shuts the worker
//! off from everything else.
use vstd::prelude::*;

use crate::config;
use crate::config::{Backend, BackendModel, BackendType};
use crate::daemon;
use crate::numeral;
use crate::order;
use crate::quote;
use crate::text;

verus! {

/// The texts as string literals.
pub open spec fn literals(values: Seq<Seq<char>>) -> Seq<Seq<char>> {
    values.map_values(|value: Seq<char>| quote::quoted_literal(value))
}

/// The texts as string literals, with commas between them.
pub open spec fn literal_list(values: Seq<Seq<char>>) -> Seq<char> {
    text::joined(literals(values), ", "@)
}

/// The texts as string literals, with commas between them.
pub fn quote_literals(values: &Vec<String>) -> (r: String)
    ensures
        r@ == literal_list(text::texts(values@)),
{
    let ghost all = text::texts(values@);
    let mut quoted: Vec<String> = Vec::new();
    let mut i: usize = 0;
    while i < values.len()
        invariant
            i <= values@.len(),
            all == text::texts(values@),
            text::texts(quoted@) == literals(all).take(i as int),
        decreases values@.len() - i,
    {
        let ghost before = quoted@;
        let literal = quote::quote_literal(values[i].as_str());
        quoted.push(literal);
        assert(text::texts(quoted@) =~= text::texts(before).push(literal@));
        assert(literals(all)[i as int] == quote::quoted_literal(all[i as int]));
        assert(literals(all).take(i + 1) =~= literals(all).take(i as int).push(
            literals(all)[i as int],
        ));
        i += 1;
    }
    assert(literals(all).take(all.len() as int) =~= literals(all));
    text::join(&quoted, ", ")
}

/// A path without links in it, and whether it is that of a regular file.
#[derive(Debug)]
pub struct Located {
    pub path: String,
    pub is_file: bool,
}

/// The path that a source is registered under, or why it cannot be. What is given is the path
/// as it was asked for, what it was resolved to, and its absolute form. A Parquet source may be
/// a pattern, which nothing is resolved to, or a directory; any other is a regular file.
pub open spec fn registered_path(
    asked: Seq<char>,
    kind: BackendType,
    located: Result<(Seq<char>, bool), Seq<char>>,
    absolute: Result<Seq<char>, Seq<char>>,
) -> Result<Seq<char>, Seq<char>> {
    match located {
        Ok((path, is_file)) => if kind == BackendType::Parquet || is_file {
            Ok(path)
        } else {
            Err("not a regular file: "@ + path)
        },
        Err(cause) => if kind == BackendType::Parquet {
            absolute
        } else {
            Err("could not resolve "@ + asked + ": "@ + cause)
        },
    }
}

/// The views of what a path was resolved to.
pub open spec fn located_model(located: Result<Located, String>) -> Result<
    (Seq<char>, bool),
    Seq<char>,
> {
    match located {
        Ok(found) => Ok((found.path@, found.is_file)),
        Err(cause) => Err(cause@),
    }
}

/// The views of a path, or of why there is none.
pub open spec fn path_model(path: Result<String, String>) -> Result<Seq<char>, Seq<char>> {
    match path {
        Ok(path) => Ok(path@),
        Err(cause) => Err(cause@),
    }
}

/// The path that a source is registered under.
pub fn source_path(
    asked: &str,
    kind: BackendType,
    located: Result<Located, String>,
    absolute: Result<String, String>,
) -> (r: Result<String, String>)
    ensures
        path_model(r) == registered_path(
            asked@,
            kind,
            located_model(located),
            path_model(absolute),
        ),
{
    match (located, kind) {
        (Ok(found), BackendType::Parquet) => Ok(found.path),
        (Ok(found), _) => daemon::ensure_sqlite_path(found.path, found.is_file),
        (Err(_), BackendType::Parquet) => absolute,
        (Err(cause), _) => {
            let mut error = "could not resolve ".to_owned();
            error.append(asked);
            error.append(": ");
            error.append(cause.as_str());
            Err(error)
        },
    }
}

/// How the files that a path may stand for are found.
#[derive(Debug)]
pub enum FileSearch {
    /// The path is that of a file.
    File(String),
    /// Files are those that a pattern matches.
    Pattern(String),
    /// There is no file.
    Nothing,
}

/// The model of a [`FileSearch`].
pub enum SearchModel {
    File(Seq<char>),
    Pattern(Seq<char>),
    Nothing,
}

impl View for FileSearch {
    type V = SearchModel;

    open spec fn view(&self) -> SearchModel {
        match self {
            FileSearch::File(path) => SearchModel::File(path@),
            FileSearch::Pattern(pattern) => SearchModel::Pattern(pattern@),
            FileSearch::Nothing => SearchModel::Nothing,
        }
    }
}

/// The pattern of the Parquet files that a path which is no file stands for: all of those in a
/// directory, at any depth, or those that the path itself matches.
pub open spec fn parquet_pattern(path: Seq<char>, is_directory: bool) -> Seq<char> {
    if is_directory {
        config::path_in(path, "**/*.parquet"@)
    } else {
        path
    }
}

/// How the files that the path of a backend stands for are found: a path may be that of a file,
/// and for Parquet it may be a directory or a pattern.
pub open spec fn search_of(backend: BackendModel, is_file: bool, is_directory: bool) -> SearchModel {
    if is_file {
        SearchModel::File(backend.path)
    } else if backend.kind == BackendType::Parquet {
        SearchModel::Pattern(parquet_pattern(backend.path, is_directory))
    } else {
        SearchModel::Nothing
    }
}

/// How the files that the path of a backend stands for are found, given what the path is.
pub fn find_files(backend: &Backend, is_file: bool, is_directory: bool) -> (r: FileSearch)
    ensures
        r@ == search_of(backend@, is_file, is_directory),
{
    if is_file {
        return FileSearch::File(backend.path.clone());
    }
    match backend.kind {
        BackendType::Parquet => FileSearch::Pattern(
            if is_directory {
                config::join_path(backend.path.as_str(), "**/*.parquet")
            } else {
                backend.path.clone()
            },
        ),
        _ => FileSearch::Nothing,
    }
}

/// The files that a backend reads: the one file of its path, or, for Parquet, those that its
/// path was resolved to, sorted and without repetitions.
pub open spec fn source_files(backend: BackendModel, found: Seq<Seq<char>>) -> Seq<Seq<char>> {
    if backend.kind == BackendType::Parquet {
        order::listing(found.to_set())
    } else {
        seq![backend.path]
    }
}

/// The files that a backend reads, given those that the path of a Parquet backend was
/// resolved to.
pub fn freeze_files(backend: &Backend, found: &Vec<String>) -> (files: Vec<String>)
    ensures
        text::texts(files@) == source_files(backend@, text::texts(found@)),
        backend.kind == BackendType::Parquet ==> order::strictly_sorted(text::texts(files@)),
        backend.kind == BackendType::Parquet ==> text::texts(files@).to_set() == text::texts(
            found@,
        ).to_set(),
{
    match backend.kind {
        BackendType::Parquet => order::distinct(text::copy(found)),
        _ => {
            let mut files: Vec<String> = Vec::new();
            files.push(backend.path.clone());
            assert(text::texts(files@) =~= seq![backend@.path]);
            files
        },
    }
}

/// The files of a backend do not depend on the order in which they were found, nor on how
/// often each was.
pub proof fn frozen_files_do_not_depend_on_discovery(
    backend: BackendModel,
    found: Seq<Seq<char>>,
    again: Seq<Seq<char>>,
)
    requires
        found.to_set() == again.to_set(),
    ensures
        source_files(backend, found) == source_files(backend, again),
{
}

/// The statements that make a backend known. SQLite and DuckDB files are attached for
/// reading only, and Parquet files become a view that reads exactly the given files.
pub open spec fn registration(backend: BackendModel, files: Seq<Seq<char>>) -> Seq<char> {
    match backend.kind {
        BackendType::Sqlite => "ATTACH "@ + quote::quoted_literal(backend.path) + " AS "@
            + quote::quoted_ident(backend.name) + " (TYPE SQLITE, READ_ONLY)"@,
        BackendType::Duckdb => "ATTACH "@ + quote::quoted_literal(backend.path) + " AS "@
            + quote::quoted_ident(backend.name) + " (TYPE DUCKDB, READ_ONLY)"@,
        BackendType::Parquet => "CREATE SCHEMA IF NOT EXISTS "@ + quote::quoted_ident(backend.name)
            + ";\nCREATE VIEW "@ + quote::quoted_ident(backend.name) + "."@ + quote::quoted_ident(
            config::exposed_relation(backend),
        ) + " AS\nSELECT * FROM read_parquet(["@ + literal_list(files)
            + "], union_by_name = true);"@,
    }
}

/// The statements that make a backend known to a worker.
pub fn attach(backend: &Backend, files: &Vec<String>) -> (sql: String)
    ensures
        sql@ == registration(backend@, text::texts(files@)),
{
    match backend.kind {
        BackendType::Sqlite => {
            let mut sql = "ATTACH ".to_owned();
            sql.append(quote::quote_literal(backend.path.as_str()).as_str());
            sql.append(" AS ");
            sql.append(quote::quote_ident(backend.name.as_str()).as_str());
            sql.append(" (TYPE SQLITE, READ_ONLY)");
            sql
        },
        BackendType::Duckdb => {
            let mut sql = "ATTACH ".to_owned();
            sql.append(quote::quote_literal(backend.path.as_str()).as_str());
            sql.append(" AS ");
            sql.append(quote::quote_ident(backend.name.as_str()).as_str());
            sql.append(" (TYPE DUCKDB, READ_ONLY)");
            sql
        },
        BackendType::Parquet => {
            let mut sql = "CREATE SCHEMA IF NOT EXISTS ".to_owned();
            sql.append(quote::quote_ident(backend.name.as_str()).as_str());
            sql.append(";\nCREATE VIEW ");
            sql.append(quote::quote_ident(backend.name.as_str()).as_str());
            sql.append(".");
            sql.append(quote::quote_ident(backend.relation()).as_str());
            sql.append(" AS\nSELECT * FROM read_parquet([");
            sql.append(quote_literals(files).as_str());
            sql.append("], union_by_name = true);");
            sql
        },
    }
}

/// A file is never attached for writing: the statement ends by saying so.
pub proof fn files_are_attached_read_only(backend: BackendModel, files: Seq<Seq<char>>)
    ensures
        backend.kind != BackendType::Parquet ==> ", READ_ONLY)"@.is_suffix_of(
            registration(backend, files),
        ),
        backend.kind == BackendType::Parquet ==> !("ATTACH"@.is_prefix_of(
            registration(backend, files),
        )),
{
    reveal_strlit(" (TYPE SQLITE, READ_ONLY)");
    reveal_strlit(" (TYPE DUCKDB, READ_ONLY)");
    reveal_strlit(", READ_ONLY)");
    reveal_strlit("ATTACH");
    reveal_strlit("CREATE SCHEMA IF NOT EXISTS ");
    let r = registration(backend, files);
    match backend.kind {
        BackendType::Sqlite => {
            assert(r.skip(r.len() - 12) =~= ", READ_ONLY)"@);
        },
        BackendType::Duckdb => {
            assert(r.skip(r.len() - 12) =~= ", READ_ONLY)"@);
        },
        BackendType::Parquet => {
            assert(r[0] == 'C');
            assert("ATTACH"@[0] == 'A');
        },
    }
}

pub open spec fn sqlite_extension(install: bool) -> Seq<char> {
    if install {
        "INSTALL sqlite; LOAD sqlite;"@
    } else {
        "LOAD sqlite;"@
    }
}

/// The statements that load the extension that reads SQLite files, installed before where
/// that is asked for.
pub fn load_sqlite_extension(install: bool) -> (sql: &'static str)
    ensures
        sql@ == sqlite_extension(install),
{
    if install {
        "INSTALL sqlite; LOAD sqlite;"
    } else {
        "LOAD sqlite;"
    }
}

/// The settings that shut a worker off: it may read the given files and nothing else, and
/// no later statement can change that.
pub open spec fn hardening(files: Seq<Seq<char>>, threads: nat) -> Seq<char> {
    "SET threads = "@ + numeral::numeral(threads) + ";\nSET allowed_paths = ["@ + literal_list(
        files,
    )
        + "];\n\
         SET allow_community_extensions = false;\n\
         SET autoinstall_known_extensions = false;\n\
         SET autoload_known_extensions = false;\n\
         SET enable_external_access = false;\n\
         SET lock_configuration = true;"@
}

/// The settings that shut a worker off from everything but the given files.
pub fn harden_connection(files: &Vec<String>, threads_per_worker: usize) -> (sql: String)
    ensures
        sql@ == hardening(text::texts(files@), threads_per_worker as nat),
{
    let mut sql = "SET threads = ".to_owned();
    sql.append(numeral::numeral_of(threads_per_worker as u128).as_str());
    sql.append(";\nSET allowed_paths = [");
    sql.append(quote_literals(files).as_str());
    sql.append(
        "];\n\
         SET allow_community_extensions = false;\n\
         SET autoinstall_known_extensions = false;\n\
         SET autoload_known_extensions = false;\n\
         SET enable_external_access = false;\n\
         SET lock_configuration = true;",
    );
    sql
}

/// Whatever the files, the settings end with turning external access off and locking the
/// settings.
pub proof fn hardening_turns_external_access_off_and_locks(files: Seq<Seq<char>>, threads: nat)
    ensures
        "SET enable_external_access = false;\nSET lock_configuration = true;"@.is_suffix_of(
            hardening(files, threads),
        ),
{
    reveal_strlit("SET enable_external_access = false;\nSET lock_configuration = true;");
    reveal_strlit(
        "];\n\
         SET allow_community_extensions = false;\n\
         SET autoinstall_known_extensions = false;\n\
         SET autoload_known_extensions = false;\n\
         SET enable_external_access = false;\n\
         SET lock_configuration = true;",
    );
    let text = hardening(files, threads);
    let end = "SET enable_external_access = false;\nSET lock_configuration = true;"@;
    assert(text.skip(text.len() - end.len()) =~= end);
}

/// The query by which a backend is tried: it counts the tables of the catalog whose name
/// is the parameter.
pub fn backend_probe() -> (sql: &'static str)
    ensures
        sql@ == "SELECT count(*) FROM duckdb_tables() WHERE database_name = ?"@,
{
    "SELECT count(*) FROM duckdb_tables() WHERE database_name = ?"
}

/// The version of DuckDB that the gateway is built with.
pub fn duckdb_version() -> (version: &'static str)
    ensures
        version@ == "1.5.5"@,
{
    "1.5.5"
}

/// What kind of file a path names, where nobody says: a directory or a file with the
/// extension `parquet` is Parquet, a file with the extension `duckdb` is DuckDB, and any
/// other is SQLite.
pub open spec fn inferred_kind(path: Seq<char>, is_directory: bool) -> BackendType {
    let path = text::lower(path);
    if is_directory || ".parquet"@.is_suffix_of(path) {
        BackendType::Parquet
    } else if ".duckdb"@.is_suffix_of(path) {
        BackendType::Duckdb
    } else {
        BackendType::Sqlite
    }
}

/// What kind of file a path names, where nobody says.
pub fn infer_backend_type(path: &str, is_directory: bool) -> (kind: BackendType)
    ensures
        kind == inferred_kind(path@, is_directory),
{
    let lower = text::to_lower(path);
    if is_directory || text::finishes_with(lower.as_str(), ".parquet") {
        BackendType::Parquet
    } else if text::finishes_with(lower.as_str(), ".duckdb") {
        BackendType::Duckdb
    } else {
        BackendType::Sqlite
    }
}

// ---------------------------------------------------------------------------
// Laws
// ---------------------------------------------------------------------------

/// The list of one text is that text as a literal, and a further text stands at the end, as a
/// literal behind a comma.
pub proof fn literals_are_listed_in_order(
    values: &Vec<String>,
    fewer: &Vec<String>,
    r: String,
    before: String,
    value: &str,
    last: String,
)
    requires
        values@.len() > 0,
        value@ == values@.last()@,
        text::texts(fewer@) == text::texts(values@).drop_last(),
        call_ensures(quote_literals, (values,), r),
        call_ensures(quote_literals, (fewer,), before),
        call_ensures(quote::quote_literal, (value,), last),
    ensures
        values@.len() == 1 ==> r@ == last@,
        values@.len() > 1 ==> r@ == before@ + ", "@ + last@,
{
    let all = literals(text::texts(values@));
    assert(all.drop_last() =~= literals(text::texts(fewer@)));
    assert(all.last() == last@);
}

/// A source is registered under what its path was resolved to where that is a regular file or
/// the source is Parquet. A Parquet source that nothing was resolved to, as a pattern, keeps its
/// absolute form. Any other has no path: the error tells what was asked for and the cause.
pub proof fn sources_are_registered_where_they_are(
    asked: &str,
    kind: BackendType,
    located: Result<Located, String>,
    absolute: Result<String, String>,
    r: Result<String, String>,
)
    requires
        call_ensures(source_path, (asked, kind, located, absolute), r),
    ensures
        located matches Ok(found) ==> (found.is_file || kind == BackendType::Parquet ==> (
        r matches Ok(path) && path@ == found.path@)),
        located matches Ok(found) ==> (!found.is_file && kind != BackendType::Parquet ==> (
        r matches Err(error) && (": "@ + found.path@).is_suffix_of(error@))),
        located is Err && kind == BackendType::Parquet ==> path_model(r) == path_model(absolute),
        located matches Err(cause) ==> (kind != BackendType::Parquet ==> (r matches Err(error) && (
        "could not resolve "@ + asked@ + ": "@).is_prefix_of(error@) && error@.skip(
            ("could not resolve "@ + asked@ + ": "@).len() as int,
        ) == cause@)),
{
    reveal_strlit("not a regular file: ");
    reveal_strlit(": ");
    if let Err(error) = r {
        assert(path_model(r) == Err::<Seq<char>, Seq<char>>(error@));
        match located {
            Ok(found) => {
                let end = ": "@ + found.path@;
                assert(error@.skip(error@.len() - end.len()) =~= end);
            },
            Err(cause) => {
                if kind != BackendType::Parquet {
                    let head = "could not resolve "@ + asked@ + ": "@;
                    assert(error@.take(head.len() as int) =~= head);
                    assert(error@.skip(head.len() as int) =~= cause@);
                }
            },
        }
    } else {
        assert(path_model(r) == Ok::<Seq<char>, Seq<char>>(r->Ok_0@));
    }
}

/// A path that is a file is searched for nothing else. Of the others only Parquet paths are: a
/// directory for all the Parquet files in it, and anything else as the pattern that it is.
pub proof fn only_parquet_paths_are_patterns(
    backend: &Backend,
    is_file: bool,
    is_directory: bool,
    r: FileSearch,
)
    requires
        call_ensures(find_files, (backend, is_file, is_directory), r),
    ensures
        is_file ==> (r matches FileSearch::File(path) && path@ == backend.path@),
        r is Pattern <==> !is_file && backend.kind == BackendType::Parquet,
        r is Nothing <==> !is_file && backend.kind != BackendType::Parquet,
        r matches FileSearch::Pattern(pattern) ==> (!is_directory ==> pattern@ == backend.path@),
        r matches FileSearch::Pattern(pattern) ==> (is_directory ==> backend.path@.is_prefix_of(
            pattern@,
        ) && "**/*.parquet"@.is_suffix_of(pattern@)),
        r matches FileSearch::Pattern(pattern) ==> (is_directory && backend.path@.len() > 0
            && backend.path@.last() != '/' ==> pattern@ == backend.path@ + "/"@
            + "**/*.parquet"@),
{
    if let FileSearch::Pattern(pattern) = r {
        if is_directory {
            let name = "**/*.parquet"@;
            assert(pattern@.take(backend.path@.len() as int) =~= backend.path@);
            assert(pattern@.skip(pattern@.len() - name.len()) =~= name);
        }
    }
}

/// A backend that is not Parquet reads the one file of its path, and one that is reads each file
/// that was found, once, in order.
pub proof fn frozen_files_are_those_that_were_found(
    backend: &Backend,
    found: &Vec<String>,
    files: Vec<String>,
    file: Seq<char>,
)
    requires
        call_ensures(freeze_files, (backend, found), files),
    ensures
        backend.kind != BackendType::Parquet ==> text::texts(files@) == seq![backend.path@],
        backend.kind == BackendType::Parquet ==> order::strictly_sorted(text::texts(files@)),
        backend.kind == BackendType::Parquet ==> (text::texts(files@).contains(file)
            <==> text::texts(found@).contains(file)),
{
    let all = text::texts(found@);
    if backend.kind == BackendType::Parquet {
        let kept = text::texts(files@);
        assert(kept.to_set().contains(file) <==> kept.contains(file));
        assert(all.to_set().contains(file) <==> all.contains(file));
    }
}

/// A file is attached by its path under its name, for reading only, as what it is. Parquet files
/// become the relation of the backend in a schema of its name, which reads the given files.
pub proof fn sources_are_attached_by_path_and_name(
    backend: &Backend,
    files: &Vec<String>,
    listed: String,
    sql: String,
)
    requires
        call_ensures(attach, (backend, files), sql),
        call_ensures(quote_literals, (files,), listed),
    ensures
        backend.kind == BackendType::Sqlite ==> "(TYPE SQLITE, READ_ONLY)"@.is_suffix_of(sql@),
        backend.kind == BackendType::Duckdb ==> "(TYPE DUCKDB, READ_ONLY)"@.is_suffix_of(sql@),
        backend.kind != BackendType::Parquet ==> ("ATTACH "@ + quote::quoted_literal(backend.path@)
            + " AS "@ + quote::quoted_ident(backend.name@) + " (TYPE "@).is_prefix_of(sql@)
            && sql@.len() == ("ATTACH "@ + quote::quoted_literal(backend.path@) + " AS "@
            + quote::quoted_ident(backend.name@)).len() + " (TYPE SQLITE, READ_ONLY)"@.len(),
        backend.kind == BackendType::Parquet ==> ({
            let head = "CREATE SCHEMA IF NOT EXISTS "@ + quote::quoted_ident(backend.name@)
                + ";\nCREATE VIEW "@ + quote::quoted_ident(backend.name@) + "."@
                + quote::quoted_ident(
                match backend.relation {
                    Some(relation) => relation@,
                    None => "data"@,
                },
            ) + " AS\n"@;
            &&& head.is_prefix_of(sql@)
            &&& sql@.skip(head.len() as int) == "SELECT * FROM read_parquet(["@ + listed@
                + "], union_by_name = true);"@
        }),
{
    reveal_strlit("(TYPE SQLITE, READ_ONLY)");
    reveal_strlit("(TYPE DUCKDB, READ_ONLY)");
    reveal_strlit(" (TYPE SQLITE, READ_ONLY)");
    reveal_strlit(" (TYPE DUCKDB, READ_ONLY)");
    reveal_strlit(" (TYPE ");
    reveal_strlit(" AS\nSELECT * FROM read_parquet([");
    reveal_strlit(" AS\n");
    reveal_strlit("SELECT * FROM read_parquet([");
    if backend.kind == BackendType::Parquet {
        let head = "CREATE SCHEMA IF NOT EXISTS "@ + quote::quoted_ident(backend.name@)
            + ";\nCREATE VIEW "@ + quote::quoted_ident(backend.name@) + "."@ + quote::quoted_ident(
            match backend.relation {
                Some(relation) => relation@,
                None => "data"@,
            },
        ) + " AS\n"@;
        assert(config::exposed_relation(backend@) == match backend.relation {
            Some(relation) => relation@,
            None => "data"@,
        });
        assert(" AS\nSELECT * FROM read_parquet(["@ =~= " AS\n"@
            + "SELECT * FROM read_parquet(["@);
        assert(sql@ =~= head + ("SELECT * FROM read_parquet(["@ + listed@
            + "], union_by_name = true);"@));
        assert(sql@.take(head.len() as int) =~= head);
        assert(sql@.skip(head.len() as int) =~= "SELECT * FROM read_parquet(["@ + listed@
            + "], union_by_name = true);"@);
    } else {
        let head = "ATTACH "@ + quote::quoted_literal(backend.path@) + " AS "@
            + quote::quoted_ident(backend.name@) + " (TYPE "@;
        assert(sql@.take(head.len() as int) =~= head);
        if backend.kind == BackendType::Sqlite {
            assert(sql@.skip(sql@.len() - 24) =~= "(TYPE SQLITE, READ_ONLY)"@);
        } else {
            assert(sql@.skip(sql@.len() - 24) =~= "(TYPE DUCKDB, READ_ONLY)"@);
        }
    }
}

/// The extension is loaded in any case, and installed before exactly where that is asked for.
pub proof fn extensions_are_installed_where_asked_for(a: &'static str, b: &'static str)
    requires
        call_ensures(load_sqlite_extension, (true,), a),
        call_ensures(load_sqlite_extension, (false,), b),
    ensures
        b@ == "LOAD sqlite;"@,
        a@ == "INSTALL sqlite; "@ + b@,
{
    reveal_strlit("INSTALL sqlite; LOAD sqlite;");
    reveal_strlit("INSTALL sqlite; ");
    reveal_strlit("LOAD sqlite;");
    assert(a@ =~= "INSTALL sqlite; "@ + b@);
}

/// A worker is shut off with the threads and the files that are given, and with every way to
/// reach anything else turned off, in this order.
pub proof fn workers_are_shut_off_from_everything_but_their_files(
    files: &Vec<String>,
    threads: usize,
    listed: String,
    sql: String,
)
    requires
        call_ensures(harden_connection, (files, threads), sql),
        call_ensures(quote_literals, (files,), listed),
    ensures
        ({
            let head = "SET threads = "@ + numeral::numeral(threads as nat)
                + ";\nSET allowed_paths = ["@ + listed@ + "];\n"@;
            let end = "SET allow_community_extensions = false;\n\
                SET autoinstall_known_extensions = false;\n\
                SET autoload_known_extensions = false;\n\
                SET enable_external_access = false;\n\
                SET lock_configuration = true;"@;
            head.is_prefix_of(sql@) && sql@.skip(head.len() as int) == end
        }),
{
    reveal_strlit(
        "];\n\
         SET allow_community_extensions = false;\n\
         SET autoinstall_known_extensions = false;\n\
         SET autoload_known_extensions = false;\n\
         SET enable_external_access = false;\n\
         SET lock_configuration = true;",
    );
    reveal_strlit("];\n");
    reveal_strlit(
        "SET allow_community_extensions = false;\n\
         SET autoinstall_known_extensions = false;\n\
         SET autoload_known_extensions = false;\n\
         SET enable_external_access = false;\n\
         SET lock_configuration = true;",
    );
    let head = "SET threads = "@ + numeral::numeral(threads as nat) + ";\nSET allowed_paths = ["@
        + listed@ + "];\n"@;
    let end = "SET allow_community_extensions = false;\n\
        SET autoinstall_known_extensions = false;\n\
        SET autoload_known_extensions = false;\n\
        SET enable_external_access = false;\n\
        SET lock_configuration = true;"@;
    assert(sql@ =~= head + end);
    assert(sql@.take(head.len() as int) =~= head);
    assert(sql@.skip(head.len() as int) =~= end);
}

/// The kind of a path that nobody tells the kind of: a directory is Parquet, and a file is what
/// its extension says, in whatever case it is written, or else SQLite.
pub proof fn kinds_are_told_by_extension(path: &str, is_directory: bool, kind: BackendType)
    requires
        call_ensures(infer_backend_type, (path, is_directory), kind),
    ensures
        is_directory ==> kind == BackendType::Parquet,
        !is_directory ==> (kind == BackendType::Parquet <==> ".parquet"@.is_suffix_of(
            text::lower(path@),
        )),
        !is_directory ==> (kind == BackendType::Duckdb <==> ".duckdb"@.is_suffix_of(
            text::lower(path@),
        )),
{
    reveal_strlit(".parquet");
    reveal_strlit(".duckdb");
    let low = text::lower(path@);
    if ".parquet"@.is_suffix_of(low) && ".duckdb"@.is_suffix_of(low) {
        assert(low.last() == ".parquet"@[7]);
        assert(low.last() == ".duckdb"@[6]);
    }
}

/// The query by which a backend is tried takes the name of the backend as its one parameter.
pub proof fn probes_take_the_name_of_the_backend(sql: &'static str, version: &'static str)
    requires
        call_ensures(backend_probe, (), sql),
        call_ensures(duckdb_version, (), version),
    ensures
        sql@ == "SELECT count(*) FROM duckdb_tables() WHERE database_name = ?"@,
        sql@.last() == '?',
        forall|i: int| 0 <= i < sql@.len() - 1 ==> sql@[i] != '?',
        version@ == "1.5.5"@,
{
    reveal_strlit("SELECT count(*) FROM duckdb_tables() WHERE database_name = ?");
}

} // verus!
