//! Which SQL the gateway runs: one statement that reads, and that opens no source by
//! itself.
use core::ops::ControlFlow;
use sqlparser::ast::{
    Expr, ObjectName, ObjectNamePart, Select, Statement, TableFactor, Visit, Visitor,
};
use sqlparser::dialect::DuckDbDialect;
use sqlparser::parser::Parser;
use vstd::prelude::*;

use crate::numeral;
use crate::order;
use crate::text;

verus! {

// ---------------------------------------------------------------------------
// Parsed statements
// ---------------------------------------------------------------------------

/// What kind of statement was parsed, as far as the gateway tells kinds apart.
#[derive(Debug, Clone, Copy, PartialEq, Eq, Structural)]
pub enum StatementKind {
    Query,
    /// An `EXPLAIN` that does not run what it explains.
    Explain,
    /// An `EXPLAIN` that runs what it explains.
    ExplainAnalyze,
    ExplainTable,
    CreateView,
    CreateMacro,
    Other,
}

/// One part of a name: an identifier, with the quote character that it was written in, or
/// something else.
#[derive(Debug)]
pub enum NamePart {
    Identifier { value: String, quote: Option<char> },
    Other,
}

/// The model of a [`NamePart`].
#[verifier::ext_equal]
pub enum PartModel {
    Identifier { value: Seq<char>, quote: Option<char> },
    Other,
}

impl View for NamePart {
    type V = PartModel;

    open spec fn view(&self) -> PartModel {
        match self {
            NamePart::Identifier { value, quote } => PartModel::Identifier {
                value: value@,
                quote: *quote,
            },
            NamePart::Other => PartModel::Other,
        }
    }
}

/// A name: its parts, and the name as SQL text.
#[derive(Debug)]
pub struct Name {
    pub parts: Vec<NamePart>,
    pub sql: String,
}

/// The model of a [`Name`].
#[verifier::ext_equal]
pub struct NameModel {
    pub parts: Seq<PartModel>,
    pub sql: Seq<char>,
}

impl View for Name {
    type V = NameModel;

    open spec fn view(&self) -> NameModel {
        NameModel { parts: order::models(self.parts@), sql: self.sql@ }
    }
}

/// How a statement uses a name: it calls a function, in an expression or as a table, or
/// it reads a relation.
#[derive(Debug, Clone, Copy, PartialEq, Eq, Structural)]
pub enum UseKind {
    Function,
    Relation,
}

/// A name that a statement uses: the last of its parts, where that is an identifier, with
/// the quote character that it was written in, and the name as SQL text.
#[derive(Debug)]
pub struct SourceUse {
    pub kind: UseKind,
    pub last: Option<String>,
    pub quote: Option<char>,
    pub sql: String,
}

/// The model of a [`SourceUse`].
#[verifier::ext_equal]
pub struct UseModel {
    pub kind: UseKind,
    pub last: Option<Seq<char>>,
    pub quote: Option<char>,
    pub sql: Seq<char>,
}

impl View for SourceUse {
    type V = UseModel;

    open spec fn view(&self) -> UseModel {
        UseModel {
            kind: self.kind,
            last: crate::config::optional(self.last),
            quote: self.quote,
            sql: self.sql@,
        }
    }
}

/// What the gateway needs to know of a statement: its kind, the kinds of the statements met in a
/// walk through it, itself among them, and the names that it uses, in the order in which the
/// walk meets them. A `SELECT` that makes a table of what it selects is met as a statement of
/// another kind.
#[derive(Debug)]
pub struct ParsedStatement {
    pub kind: StatementKind,
    pub inner: Vec<StatementKind>,
    pub uses: Vec<SourceUse>,
}

/// The model of a [`ParsedStatement`].
#[verifier::ext_equal]
pub struct StatementModel {
    pub kind: StatementKind,
    pub inner: Seq<StatementKind>,
    pub uses: Seq<UseModel>,
}

impl View for ParsedStatement {
    type V = StatementModel;

    open spec fn view(&self) -> StatementModel {
        StatementModel {
            kind: self.kind,
            inner: self.inner@,
            uses: order::models(self.uses@),
        }
    }
}

/// A statement of a text: what the gateway needs to know of it, and the statement as SQL.
#[verifier::ext_equal]
pub struct ParsedModel {
    pub statement: StatementModel,
    pub sql: Seq<char>,
}

// ---------------------------------------------------------------------------
// What the parser tells
// ---------------------------------------------------------------------------

/// A statement, as the parser hands it out.
#[verifier::external_type_specification]
#[verifier::external_body]
pub struct ExStatement(Statement);

/// A `SELECT`, as a part of a statement.
#[verifier::external_type_specification]
#[verifier::external_body]
pub struct ExSelect(Select);

/// An item of a `FROM` clause.
#[verifier::external_type_specification]
#[verifier::external_body]
pub struct ExTableFactor(TableFactor);

/// An expression.
#[verifier::external_type_specification]
#[verifier::external_body]
pub struct ExExpr(Expr);

/// A name of a table, a view or a function.
#[verifier::external_type_specification]
#[verifier::external_body]
pub struct ExObjectName(ObjectName);

/// What `Parser::parse_sql` makes of a text in the dialect of DuckDB: the statements, or the
/// report of the parser.
pub uninterp spec fn parsed_statements(sql: Seq<char>) -> Result<Seq<Statement>, Seq<char>>;

/// Parses with `Parser::parse_sql` in the dialect of DuckDB. The contract claims that what
/// comes back depends on the text alone, and gives it a name.
#[verifier::external_body]
fn parse_statements(sql: &str) -> (r: Result<Vec<Statement>, String>)
    ensures
        match r {
            Ok(statements) => parsed_statements(sql@) == Ok::<Seq<Statement>, Seq<char>>(
                statements@,
            ),
            Err(report) => parsed_statements(sql@) == Err::<Seq<Statement>, Seq<char>>(report@),
        },
{
    Parser::parse_sql(&DuckDbDialect {}, sql).map_err(|error| error.to_string())
}

/// A statement, as far as the gateway tells statements apart. Of an `EXPLAIN` it is known
/// whether `ANALYZE` stands in it, and which options stand in brackets.
#[derive(Debug)]
pub enum StatementNode {
    Query,
    Explain { analyze: bool, options: Option<Vec<String>> },
    ExplainTable,
    CreateView,
    CreateMacro,
    Other,
}

/// The model of a [`StatementNode`].
pub enum NodeModel {
    Query,
    Explain { analyze: bool, options: Option<Seq<Seq<char>>> },
    ExplainTable,
    CreateView,
    CreateMacro,
    Other,
}

impl View for StatementNode {
    type V = NodeModel;

    open spec fn view(&self) -> NodeModel {
        match self {
            StatementNode::Query => NodeModel::Query,
            StatementNode::Explain { analyze, options } => NodeModel::Explain {
                analyze: *analyze,
                options: match options {
                    Some(names) => Some(text::texts(names@)),
                    None => None,
                },
            },
            StatementNode::ExplainTable => NodeModel::ExplainTable,
            StatementNode::CreateView => NodeModel::CreateView,
            StatementNode::CreateMacro => NodeModel::CreateMacro,
            StatementNode::Other => NodeModel::Other,
        }
    }
}

/// Which variant of `Statement` a statement is, and what the fields of an `Explain` hold.
pub uninterp spec fn node_of(statement: Statement) -> NodeModel;

/// Tells the variants of `Statement` apart and hands out the fields of an `Explain`, of each
/// option its name. The contract claims that these depend on the statement alone, and gives
/// them a name.
#[verifier::external_body]
fn read_statement(statement: &Statement) -> (r: StatementNode)
    ensures
        r@ == node_of(*statement),
{
    match statement {
        Statement::Query(_) => StatementNode::Query,
        Statement::Explain { analyze, options, .. } => StatementNode::Explain {
            analyze: *analyze,
            options: options.as_ref().map(|o| o.iter().map(|o| o.name.value.clone()).collect()),
        },
        Statement::ExplainTable { .. } => StatementNode::ExplainTable,
        Statement::CreateView(_) => StatementNode::CreateView,
        Statement::CreateMacro { .. } => StatementNode::CreateMacro,
        _ => StatementNode::Other,
    }
}

/// What `Statement::to_string` gives of a statement.
pub uninterp spec fn text_of(statement: Statement) -> Seq<char>;

/// Writes a statement as SQL with `Statement::to_string`. The contract claims that the text
/// depends on the statement alone, and gives it a name.
#[verifier::external_body]
fn statement_text(statement: &Statement) -> (r: String)
    ensures
        r@ == text_of(*statement),
{
    statement.to_string()
}

/// What the fields of an `ObjectName` hold, and what its `to_string` gives.
pub uninterp spec fn name_of(name: ObjectName) -> NameModel;

/// Converts an `ObjectName` part by part, and writes it as SQL with `to_string`. The contract
/// claims that both depend on the name alone, and gives them a name.
#[verifier::external_body]
fn read_name(name: &ObjectName) -> (r: Name)
    ensures
        r@ == name_of(*name),
{
    let parts = name.0.iter().map(|part| match part {
        ObjectNamePart::Identifier(ident) => {
            NamePart::Identifier { value: ident.value.clone(), quote: ident.quote_style }
        },
        ObjectNamePart::Function(_) => NamePart::Other,
    }).collect();
    Name { parts, sql: name.to_string() }
}

/// An item of a `FROM` clause, as far as the gateway tells items apart: a table, with or
/// without a list of arguments, a function, or something else.
pub enum TableNode<'a> {
    Table { name: &'a ObjectName, arguments: bool },
    Function { name: &'a ObjectName },
    Other,
}

/// The model of a [`TableNode`].
pub enum TableModel {
    Table { name: ObjectName, arguments: bool },
    Function { name: ObjectName },
    Other,
}

impl<'a> View for TableNode<'a> {
    type V = TableModel;

    open spec fn view(&self) -> TableModel {
        match self {
            TableNode::Table { name, arguments } => TableModel::Table {
                name: **name,
                arguments: *arguments,
            },
            TableNode::Function { name } => TableModel::Function { name: **name },
            TableNode::Other => TableModel::Other,
        }
    }
}

/// Which variant of `TableFactor` an item is, and what its fields hold.
pub uninterp spec fn table_of(table_factor: TableFactor) -> TableModel;

/// Tells the variants of `TableFactor` apart and hands out their fields. The contract claims
/// that these depend on the item alone, and gives them a name.
#[verifier::external_body]
fn read_table(table_factor: &TableFactor) -> (r: TableNode<'_>)
    ensures
        r@ == table_of(*table_factor),
{
    match table_factor {
        TableFactor::Table { name, args, .. } => {
            TableNode::Table { name, arguments: args.is_some() }
        },
        TableFactor::Function { name, .. } => TableNode::Function { name },
        _ => TableNode::Other,
    }
}

/// The name of the function that an expression is a call of, where it is a call.
pub uninterp spec fn called_in(expr: Expr) -> Option<ObjectName>;

/// Tells an `Expr` that is a `Function` from any other, and hands out the name in it. The
/// contract claims that it depends on the expression alone, and gives it a name.
#[verifier::external_body]
fn read_expression(expr: &Expr) -> (r: Option<&ObjectName>)
    ensures
        match r {
            Some(name) => called_in(*expr) == Some(*name),
            None => called_in(*expr) is None,
        },
{
    match expr {
        Expr::Function(function) => Some(&function.name),
        _ => None,
    }
}

/// Whether a `SELECT` has an `INTO` clause.
pub uninterp spec fn has_into(select: Select) -> bool;

/// Tells whether the field `into` of a `Select` is there. The contract claims that this
/// depends on the `SELECT` alone, and gives it a name.
#[verifier::external_body]
fn read_select(select: &Select) -> (r: bool)
    ensures
        r == has_into(*select),
{
    select.into.is_some()
}

/// What a walk through a statement meets.
pub enum Node {
    Statement(Statement),
    Select(Select),
    Table(TableFactor),
    Expression(Expr),
    Relation(ObjectName),
}

/// The statements, `SELECT`s, items of `FROM` clauses, expressions and relations, at any depth,
/// for which `Statement::visit` calls a visitor before it visits what is in them, in the order
/// of the calls, where no call stops the walk. The first is the statement itself.
pub uninterp spec fn met_in(statement: Statement) -> Seq<Node>;

/// Walks through a statement with `Statement::visit`. The contract claims that the nodes which
/// the collector is called for depend on the statement alone, and gives them a name. What the
/// collector does at each of them is what its own methods are proved to do.
#[verifier::external_body]
fn walk(statement: &Statement, collector: &mut SourceCollector)
    ensures
        final(collector)@ == recorded_all(old(collector)@, met_in(*statement)),
{
    let _ = statement.visit(collector);
}

// ---------------------------------------------------------------------------
// Kinds of statement
// ---------------------------------------------------------------------------

/// Whether an option of this name has an `EXPLAIN` run what it explains.
pub open spec fn is_analyze(name: Seq<char>) -> bool {
    text::lower(name) == "analyze"@
}

/// Whether one of the options of an `EXPLAIN` has it run what it explains.
pub open spec fn options_analyze(names: Seq<Seq<char>>) -> bool {
    exists|i: int| 0 <= i < names.len() && is_analyze(#[trigger] names[i])
}

/// The kind of a statement.
pub open spec fn node_kind(node: NodeModel) -> StatementKind {
    match node {
        NodeModel::Query => StatementKind::Query,
        NodeModel::Explain { analyze, options } => if analyze || (options matches Some(
            names,
        ) && options_analyze(names)) {
            StatementKind::ExplainAnalyze
        } else {
            StatementKind::Explain
        },
        NodeModel::ExplainTable => StatementKind::ExplainTable,
        NodeModel::CreateView => StatementKind::CreateView,
        NodeModel::CreateMacro => StatementKind::CreateMacro,
        NodeModel::Other => StatementKind::Other,
    }
}

/// The kind of a statement that was parsed.
pub open spec fn kind_of(statement: Statement) -> StatementKind {
    node_kind(node_of(statement))
}

fn any_analyze(names: &Vec<String>) -> (b: bool)
    ensures
        b == options_analyze(text::texts(names@)),
{
    let ghost all = text::texts(names@);
    let mut i: usize = 0;
    while i < names.len()
        invariant
            i <= names@.len(),
            all == text::texts(names@),
            forall|j: int| 0 <= j < i ==> !is_analyze(#[trigger] all[j]),
        decreases names@.len() - i,
    {
        assert(all[i as int] == names@[i as int]@);
        if text::same_text(text::to_lower(names[i].as_str()).as_str(), "analyze") {
            assert(i < all.len() && is_analyze(all[i as int]));
            return true;
        }
        i += 1;
    }
    false
}

/// The kind of a statement.
pub fn kind_of_node(node: &StatementNode) -> (r: StatementKind)
    ensures
        r == node_kind(node@),
{
    match node {
        StatementNode::Query => StatementKind::Query,
        StatementNode::Explain { analyze, options } => {
            let runs = *analyze || match options {
                Some(names) => any_analyze(names),
                None => false,
            };
            if runs {
                StatementKind::ExplainAnalyze
            } else {
                StatementKind::Explain
            }
        },
        StatementNode::ExplainTable => StatementKind::ExplainTable,
        StatementNode::CreateView => StatementKind::CreateView,
        StatementNode::CreateMacro => StatementKind::CreateMacro,
        StatementNode::Other => StatementKind::Other,
    }
}

fn statement_kind(statement: &Statement) -> (r: StatementKind)
    ensures
        r == kind_of(*statement),
{
    kind_of_node(&read_statement(statement))
}

// ---------------------------------------------------------------------------
// Walking through a statement
// ---------------------------------------------------------------------------

/// The name that an item of a `FROM` clause is a call of: a function, or a table with a list
/// of arguments.
pub open spec fn called_table(table: TableModel) -> Option<ObjectName> {
    match table {
        TableModel::Table { name, arguments } => if arguments {
            Some(name)
        } else {
            None
        },
        TableModel::Function { name } => Some(name),
        TableModel::Other => None,
    }
}

/// The use that is made of a name: what counts is the last of its parts.
pub open spec fn use_of(kind: UseKind, name: NameModel) -> UseModel {
    if name.parts.len() > 0 {
        match name.parts.last() {
            PartModel::Identifier { value, quote } => UseModel {
                kind,
                last: Some(value),
                quote,
                sql: name.sql,
            },
            PartModel::Other => UseModel { kind, last: None, quote: None, sql: name.sql },
        }
    } else {
        UseModel { kind, last: None, quote: None, sql: name.sql }
    }
}

/// The uses with that of one more name, where a name was met.
pub open spec fn with_use(before: Seq<UseModel>, kind: UseKind, met: Option<ObjectName>) -> Seq<
    UseModel,
> {
    match met {
        Some(name) => before.push(use_of(kind, name_of(name))),
        None => before,
    }
}

/// What a walk has met so far.
#[verifier::ext_equal]
pub struct Gathered {
    pub inner: Seq<StatementKind>,
    pub uses: Seq<UseModel>,
}

/// What a walk has met once it has met one more node.
pub open spec fn recorded(before: Gathered, node: Node) -> Gathered {
    match node {
        Node::Statement(statement) => Gathered {
            inner: before.inner.push(kind_of(statement)),
            uses: before.uses,
        },
        Node::Select(select) => Gathered {
            inner: if has_into(select) {
                before.inner.push(StatementKind::Other)
            } else {
                before.inner
            },
            uses: before.uses,
        },
        Node::Table(table_factor) => Gathered {
            inner: before.inner,
            uses: with_use(before.uses, UseKind::Function, called_table(table_of(table_factor))),
        },
        Node::Expression(expr) => Gathered {
            inner: before.inner,
            uses: with_use(before.uses, UseKind::Function, called_in(expr)),
        },
        Node::Relation(name) => Gathered {
            inner: before.inner,
            uses: with_use(before.uses, UseKind::Relation, Some(name)),
        },
    }
}

/// What a walk has met once it has met some more nodes, one after another.
pub open spec fn recorded_all(before: Gathered, nodes: Seq<Node>) -> Gathered
    decreases nodes.len(),
{
    if nodes.len() == 0 {
        before
    } else {
        recorded(recorded_all(before, nodes.drop_last()), nodes.last())
    }
}

/// Takes note of the statements and the names that a walk meets, in the order in which it
/// meets them.
pub struct SourceCollector {
    pub inner: Vec<StatementKind>,
    pub uses: Vec<SourceUse>,
}

impl View for SourceCollector {
    type V = Gathered;

    open spec fn view(&self) -> Gathered {
        Gathered { inner: self.inner@, uses: order::models(self.uses@) }
    }
}

/// The use that is made of a name.
pub fn source_use(kind: UseKind, name: &Name) -> (r: SourceUse)
    ensures
        r@ == use_of(kind, name@),
{
    let count: usize = name.parts.len();
    if count > 0 {
        assert(name@.parts.last() == name.parts@[count - 1]@);
        if let NamePart::Identifier { value, quote } = &name.parts[count - 1] {
            return SourceUse {
                kind,
                last: Some(value.clone()),
                quote: *quote,
                sql: name.sql.clone(),
            };
        }
    }
    SourceUse { kind, last: None, quote: None, sql: name.sql.clone() }
}

impl SourceCollector {
    /// Takes note of the use of a name, where one was met.
    fn note(&mut self, kind: UseKind, met: Option<&ObjectName>)
        ensures
            final(self)@ == (Gathered {
                inner: old(self)@.inner,
                uses: with_use(
                    old(self)@.uses,
                    kind,
                    match met {
                        Some(name) => Some(*name),
                        None => None,
                    },
                ),
            }),
    {
        if let Some(name) = met {
            let one = source_use(kind, &read_name(name));
            proof {
                order::lemma_models_push(self.uses@, one);
            }
            self.uses.push(one);
        }
    }
}

/// Each method takes note of the node that it is called for and lets the walk go on.
impl Visitor for SourceCollector {
    type Break = ();

    fn pre_visit_statement(&mut self, statement: &Statement) -> (r: ControlFlow<()>)
        ensures
            final(self)@ == recorded(old(self)@, Node::Statement(*statement)),
            r is Continue,
    {
        self.inner.push(statement_kind(statement));
        ControlFlow::Continue(())
    }

    fn pre_visit_select(&mut self, select: &Select) -> (r: ControlFlow<()>)
        ensures
            final(self)@ == recorded(old(self)@, Node::Select(*select)),
            r is Continue,
    {
        if read_select(select) {
            self.inner.push(StatementKind::Other);
        }
        ControlFlow::Continue(())
    }

    fn pre_visit_table_factor(&mut self, table_factor: &TableFactor) -> (r: ControlFlow<()>)
        ensures
            final(self)@ == recorded(old(self)@, Node::Table(*table_factor)),
            r is Continue,
    {
        match read_table(table_factor) {
            TableNode::Table { name, arguments } => if arguments {
                self.note(UseKind::Function, Some(name));
            },
            TableNode::Function { name } => {
                self.note(UseKind::Function, Some(name));
            },
            TableNode::Other => {},
        }
        ControlFlow::Continue(())
    }

    fn pre_visit_expr(&mut self, expr: &Expr) -> (r: ControlFlow<()>)
        ensures
            final(self)@ == recorded(old(self)@, Node::Expression(*expr)),
            r is Continue,
    {
        self.note(UseKind::Function, read_expression(expr));
        ControlFlow::Continue(())
    }

    fn pre_visit_relation(&mut self, relation: &ObjectName) -> (r: ControlFlow<()>)
        ensures
            final(self)@ == recorded(old(self)@, Node::Relation(*relation)),
            r is Continue,
    {
        self.note(UseKind::Relation, Some(relation));
        ControlFlow::Continue(())
    }
}

/// What a walk through a whole statement has met in the end.
pub open spec fn gathered(statement: Statement) -> Gathered {
    recorded_all(Gathered { inner: Seq::empty(), uses: Seq::empty() }, met_in(statement))
}

/// A statement that was parsed.
pub open spec fn parsed_model(statement: Statement) -> ParsedModel {
    ParsedModel {
        statement: StatementModel {
            kind: kind_of(statement),
            inner: gathered(statement).inner,
            uses: gathered(statement).uses,
        },
        sql: text_of(statement),
    }
}

/// The statements that a text holds, or the report of the parser.
pub open spec fn parsed_sql(sql: Seq<char>) -> Result<Seq<ParsedModel>, Seq<char>> {
    match parsed_statements(sql) {
        Ok(statements) => Ok(statements.map_values(|s: Statement| parsed_model(s))),
        Err(report) => Err(report),
    }
}

/// Takes from a statement what the gateway needs to know of it.
fn examine(statement: &Statement) -> (r: ParsedStatement)
    ensures
        r@ == parsed_model(*statement).statement,
{
    let mut collector = SourceCollector { inner: Vec::new(), uses: Vec::new() };
    assert(collector@ =~= (Gathered { inner: Seq::empty(), uses: Seq::empty() }));
    walk(statement, &mut collector);
    ParsedStatement {
        kind: statement_kind(statement),
        inner: collector.inner,
        uses: collector.uses,
    }
}

// ---------------------------------------------------------------------------
// Errors
// ---------------------------------------------------------------------------

/// Why a query is not run.
#[derive(Debug)]
pub enum SqlValidationError {
    Empty,
    Parse(String),
    StatementCount(usize),
    NotReadOnly(String),
    SourceFunctionNotAllowed(String),
    SourceRelationNotAllowed(String),
}

/// The model of a [`SqlValidationError`].
pub enum SqlRefusal {
    Empty,
    Parse(Seq<char>),
    StatementCount(nat),
    NotReadOnly(Seq<char>),
    SourceFunctionNotAllowed(Seq<char>),
    SourceRelationNotAllowed(Seq<char>),
}

impl View for SqlValidationError {
    type V = SqlRefusal;

    open spec fn view(&self) -> SqlRefusal {
        match self {
            SqlValidationError::Empty => SqlRefusal::Empty,
            SqlValidationError::Parse(report) => SqlRefusal::Parse(report@),
            SqlValidationError::StatementCount(count) => SqlRefusal::StatementCount(*count as nat),
            SqlValidationError::NotReadOnly(sql) => SqlRefusal::NotReadOnly(sql@),
            SqlValidationError::SourceFunctionNotAllowed(sql) => {
                SqlRefusal::SourceFunctionNotAllowed(sql@)
            },
            SqlValidationError::SourceRelationNotAllowed(name) => {
                SqlRefusal::SourceRelationNotAllowed(name@)
            },
        }
    }
}

pub open spec fn refusal_text(refusal: SqlRefusal) -> Seq<char> {
    match refusal {
        SqlRefusal::Empty => "SQL must not be empty"@,
        SqlRefusal::Parse(report) => "SQL could not be parsed as DuckDB SQL: "@ + report,
        SqlRefusal::StatementCount(count) => "exactly one SQL statement is allowed; received "@
            + numeral::numeral(count),
        SqlRefusal::NotReadOnly(sql) => "only read-only query statements are allowed; got "@ + sql,
        SqlRefusal::SourceFunctionNotAllowed(sql) => "source function '"@ + sql
            + "' is not allowed; query registered backend tables or logical views instead"@,
        SqlRefusal::SourceRelationNotAllowed(name) => "source relation '"@ + name
            + "' is not allowed; query registered backend tables or logical views instead"@,
    }
}

impl SqlValidationError {
    /// The report of the error.
    pub fn message(&self) -> (r: String)
        ensures
            r@ == refusal_text(self@),
    {
        match self {
            SqlValidationError::Empty => "SQL must not be empty".to_owned(),
            SqlValidationError::Parse(report) => {
                let mut r = "SQL could not be parsed as DuckDB SQL: ".to_owned();
                r.append(report.as_str());
                r
            },
            SqlValidationError::StatementCount(count) => {
                let mut r = "exactly one SQL statement is allowed; received ".to_owned();
                r.append(numeral::numeral_of(*count as u128).as_str());
                r
            },
            SqlValidationError::NotReadOnly(sql) => {
                let mut r = "only read-only query statements are allowed; got ".to_owned();
                r.append(sql.as_str());
                r
            },
            SqlValidationError::SourceFunctionNotAllowed(sql) => {
                let mut r = "source function '".to_owned();
                r.append(sql.as_str());
                r.append(
                    "' is not allowed; query registered backend tables or logical views instead",
                );
                r
            },
            SqlValidationError::SourceRelationNotAllowed(name) => {
                let mut r = "source relation '".to_owned();
                r.append(name.as_str());
                r.append(
                    "' is not allowed; query registered backend tables or logical views instead",
                );
                r
            },
        }
    }
}

// ---------------------------------------------------------------------------
// Queries
// ---------------------------------------------------------------------------

/// The functions that open a source or run SQL given as text, whatever the case of their
/// letters.
pub open spec fn blocked_function(name: Seq<char>) -> bool {
    let name = text::lower(name);
    ||| "read_"@.is_prefix_of(name)
    ||| "_scan"@.is_suffix_of(name)
    ||| "parquet_"@.is_prefix_of(name)
    ||| name == "glob"@
    ||| name == "query"@
    ||| name == "query_table"@
    ||| name == "sniff_csv"@
    ||| name == "sqlite_attach"@
    ||| name == "sqlite_query"@
}

/// Whether calls of a function are refused.
pub fn is_blocked_source_function(function: &str) -> (b: bool)
    ensures
        b == blocked_function(function@),
{
    let name = text::to_lower(function);
    text::begins_with(name.as_str(), "read_") || text::finishes_with(name.as_str(), "_scan")
        || text::begins_with(name.as_str(), "parquet_") || text::same_text(name.as_str(), "glob")
        || text::same_text(name.as_str(), "query") || text::same_text(name.as_str(), "query_table")
        || text::same_text(name.as_str(), "sniff_csv") || text::same_text(
        name.as_str(),
        "sqlite_attach",
    ) || text::same_text(name.as_str(), "sqlite_query")
}

/// Why a use of a name is refused: it calls a blocked function, or it reads a relation
/// that is written as a string, and so is the path of a file.
pub open spec fn use_refusal(u: UseModel) -> Option<SqlRefusal> {
    match (u.kind, u.last) {
        (UseKind::Function, Some(last)) => if blocked_function(last) {
            Some(SqlRefusal::SourceFunctionNotAllowed(u.sql))
        } else {
            None
        },
        (UseKind::Relation, Some(last)) => if u.quote == Some('\'') {
            Some(SqlRefusal::SourceRelationNotAllowed(last))
        } else {
            None
        },
        _ => None,
    }
}

/// Why the first use from `from` on that is refused is refused.
pub open spec fn first_use_refusal(uses: Seq<UseModel>, from: int) -> Option<SqlRefusal>
    decreases uses.len() - from,
{
    if from >= uses.len() {
        None
    } else if use_refusal(uses[from]) is Some {
        use_refusal(uses[from])
    } else {
        first_use_refusal(uses, from + 1)
    }
}

/// The kinds of statement that read.
pub open spec fn reads(kind: StatementKind) -> bool {
    kind == StatementKind::Query || kind == StatementKind::Explain || kind
        == StatementKind::ExplainAnalyze || kind == StatementKind::ExplainTable
}

/// Whether statements of all of these kinds read.
pub open spec fn all_read(kinds: Seq<StatementKind>) -> bool {
    forall|i: int| 0 <= i < kinds.len() ==> reads(#[trigger] kinds[i])
}

/// Whether running a statement only reads: it reads itself, and so does every statement in it,
/// such as the one behind a `WITH` or an `EXPLAIN ANALYZE`. What is explained without being run
/// may be of any kind.
pub open spec fn only_reads(statement: StatementModel) -> bool {
    reads(statement.kind) && (statement.kind == StatementKind::Explain || all_read(
        statement.inner,
    ))
}

/// Why a statement is refused: running it would not only read, or it uses a name in a way that
/// is refused.
pub open spec fn statement_refusal(parsed: ParsedModel) -> Option<SqlRefusal> {
    if only_reads(parsed.statement) {
        first_use_refusal(parsed.statement.uses, 0)
    } else {
        Some(SqlRefusal::NotReadOnly(parsed.sql))
    }
}

pub open spec fn statements_refusal(statements: Seq<ParsedModel>) -> Option<SqlRefusal> {
    if statements.len() != 1 {
        Some(SqlRefusal::StatementCount(statements.len()))
    } else {
        statement_refusal(statements[0])
    }
}

/// Why a query is refused, given what parsing makes of it.
pub open spec fn query_refusal(
    sql: Seq<char>,
    parsed: Result<Seq<ParsedModel>, Seq<char>>,
) -> Option<SqlRefusal> {
    if text::is_blank(sql) {
        Some(SqlRefusal::Empty)
    } else {
        match parsed {
            Err(report) => Some(SqlRefusal::Parse(report)),
            Ok(statements) => statements_refusal(statements),
        }
    }
}

/// What a check of SQL reports.
pub open spec fn refused(r: Result<(), SqlValidationError>) -> Option<SqlRefusal> {
    match r {
        Ok(_) => None,
        Err(error) => Some(error@),
    }
}

fn check_use(source: &SourceUse) -> (r: Result<(), SqlValidationError>)
    ensures
        refused(r) == use_refusal(source@),
{
    match &source.last {
        None => Ok(()),
        Some(last) => match source.kind {
            UseKind::Function => if is_blocked_source_function(last.as_str()) {
                Err(SqlValidationError::SourceFunctionNotAllowed(source.sql.clone()))
            } else {
                Ok(())
            },
            UseKind::Relation => match source.quote {
                Some(quote) => if quote == '\'' {
                    Err(SqlValidationError::SourceRelationNotAllowed(last.clone()))
                } else {
                    Ok(())
                },
                None => Ok(()),
            },
        },
    }
}

/// Refuses a statement that uses a name in a way that opens a source.
pub fn validate_source_functions(statement: &ParsedStatement) -> (r: Result<
    (),
    SqlValidationError,
>)
    ensures
        refused(r) == first_use_refusal(statement@.uses, 0),
{
    let ghost uses = statement@.uses;
    let mut i: usize = 0;
    while i < statement.uses.len()
        invariant
            i <= statement.uses@.len(),
            uses == order::models(statement.uses@),
            first_use_refusal(uses, 0) == first_use_refusal(uses, i as int),
        decreases statement.uses@.len() - i,
    {
        assert(uses[i as int] == statement.uses@[i as int]@);
        if let Err(error) = check_use(&statement.uses[i]) {
            return Err(error);
        }
        i += 1;
    }
    Ok(())
}

fn kind_reads(kind: StatementKind) -> (b: bool)
    ensures
        b == reads(kind),
{
    match kind {
        StatementKind::Query | StatementKind::Explain | StatementKind::ExplainAnalyze
        | StatementKind::ExplainTable => true,
        _ => false,
    }
}

fn kinds_read(kinds: &Vec<StatementKind>) -> (b: bool)
    ensures
        b == all_read(kinds@),
{
    let mut i: usize = 0;
    while i < kinds.len()
        invariant
            i <= kinds@.len(),
            forall|j: int| 0 <= j < i ==> reads(#[trigger] kinds@[j]),
        decreases kinds@.len() - i,
    {
        if !kind_reads(kinds[i]) {
            assert(!reads(kinds@[i as int]));
            return false;
        }
        i += 1;
    }
    true
}

/// Whether running a statement only reads.
pub fn is_read_only(statement: &ParsedStatement) -> (b: bool)
    ensures
        b == only_reads(statement@),
{
    kind_reads(statement.kind) && (statement.kind == StatementKind::Explain || kinds_read(
        &statement.inner,
    ))
}

/// Accepts the queries that the gateway runs: there is one statement, running it only reads,
/// and it opens no source by itself.
pub fn validate_read_only(sql: &str) -> (r: Result<(), SqlValidationError>)
    ensures
        refused(r) == query_refusal(sql@, parsed_sql(sql@)),
{
    if text::text_is_blank(sql) {
        return Err(SqlValidationError::Empty);
    }
    let statements = match parse_statements(sql) {
        Ok(statements) => statements,
        Err(report) => {
            return Err(SqlValidationError::Parse(report));
        },
    };
    if statements.len() != 1 {
        return Err(SqlValidationError::StatementCount(statements.len()));
    }
    assert(parsed_sql(sql@)->Ok_0[0] == parsed_model(statements@[0]));
    let statement = examine(&statements[0]);
    if is_read_only(&statement) {
        validate_source_functions(&statement)
    } else {
        Err(SqlValidationError::NotReadOnly(statement_text(&statements[0])))
    }
}

proof fn lemma_no_use_is_refused(uses: Seq<UseModel>, from: int)
    requires
        0 <= from,
        first_use_refusal(uses, from) is None,
    ensures
        forall|i: int| from <= i < uses.len() ==> use_refusal(#[trigger] uses[i]) is None,
    decreases uses.len() - from,
{
    if from < uses.len() {
        lemma_no_use_is_refused(uses, from + 1);
    }
}

/// Whether a call, where there is one, is not one of a blocked function.
pub open spec fn call_is_harmless(called: Option<ObjectName>) -> bool {
    called matches Some(name) ==> use_refusal(use_of(UseKind::Function, name_of(name))) is None
}

/// Whether a node of a statement writes: it is a statement that does not read, or a `SELECT`
/// that makes a table of what it selects.
pub open spec fn node_writes(node: Node) -> bool {
    match node {
        Node::Statement(statement) => !reads(kind_of(statement)),
        Node::Select(select) => has_into(select),
        _ => false,
    }
}

/// Whether a node of a statement opens no source: a call is not one of a blocked function, and
/// a relation is not written as a string.
pub open spec fn node_opens_nothing(node: Node) -> bool {
    match node {
        Node::Statement(_) | Node::Select(_) => true,
        Node::Table(table_factor) => call_is_harmless(called_table(table_of(table_factor))),
        Node::Expression(expr) => call_is_harmless(called_in(expr)),
        Node::Relation(name) => use_refusal(use_of(UseKind::Relation, name_of(name))) is None,
    }
}

/// Where no use that was noted on a walk is refused, no node of the walk opens a source.
proof fn lemma_nodes_open_nothing(before: Gathered, nodes: Seq<Node>)
    requires
        forall|i: int|
            0 <= i < recorded_all(before, nodes).uses.len() ==> use_refusal(
                #[trigger] recorded_all(before, nodes).uses[i],
            ) is None,
    ensures
        forall|i: int| 0 <= i < nodes.len() ==> node_opens_nothing(#[trigger] nodes[i]),
    decreases nodes.len(),
{
    if nodes.len() > 0 {
        let earlier = recorded_all(before, nodes.drop_last());
        let later = recorded_all(before, nodes);
        assert(later == recorded(earlier, nodes.last()));
        assert forall|i: int| 0 <= i < earlier.uses.len() implies use_refusal(
            #[trigger] earlier.uses[i],
        ) is None by {
            assert(later.uses[i] == earlier.uses[i]);
        }
        lemma_nodes_open_nothing(before, nodes.drop_last());
        assert(node_opens_nothing(nodes.last())) by {
            if later.uses.len() > earlier.uses.len() {
                assert(use_refusal(later.uses[earlier.uses.len() as int]) is None);
            }
        }
        assert forall|i: int| 0 <= i < nodes.len() implies node_opens_nothing(
            #[trigger] nodes[i],
        ) by {
            if i < nodes.len() - 1 {
                assert(nodes.drop_last()[i] == nodes[i]);
            }
        }
    }
}

/// A query that is accepted is one statement that reads. No function that it calls, at any
/// depth, is a blocked one, and it reads no relation that is written as a string. Nothing that
/// a walk through it meets writes, unless it is only explained.
pub proof fn accepted_queries_call_no_blocked_function(sql: Seq<char>)
    requires
        query_refusal(sql, parsed_sql(sql)) is None,
    ensures
        !text::is_blank(sql),
        parsed_statements(sql) matches Ok(statements) && statements.len() == 1 && reads(
            kind_of(statements[0]),
        ) && (forall|i: int|
            0 <= i < met_in(statements[0]).len() ==> node_opens_nothing(
                #[trigger] met_in(statements[0])[i],
            ) && (kind_of(statements[0]) == StatementKind::Explain || !node_writes(
                met_in(statements[0])[i],
            ))),
{
    let statement = parsed_statements(sql)->Ok_0[0];
    let start = Gathered { inner: Seq::empty(), uses: Seq::empty() };
    let nodes = met_in(statement);
    assert(parsed_sql(sql)->Ok_0[0] == parsed_model(statement));
    lemma_no_use_is_refused(gathered(statement).uses, 0);
    lemma_nodes_open_nothing(start, nodes);
    assert forall|i: int| 0 <= i < nodes.len() implies node_opens_nothing(#[trigger] nodes[i]) && (
    kind_of(statement) == StatementKind::Explain || !node_writes(nodes[i])) by {
        if node_writes(nodes[i]) {
            lemma_writes_are_noted(start, nodes, i);
        }
    }
}

/// A query in which anything writes is refused as not read-only, wherever in it that stands,
/// unless the query only explains it.
pub proof fn a_write_at_any_depth_is_refused(sql: Seq<char>, statement: Statement, i: int)
    requires
        !text::is_blank(sql),
        parsed_statements(sql) == Ok::<Seq<Statement>, Seq<char>>(seq![statement]),
        kind_of(statement) != StatementKind::Explain,
        0 <= i < met_in(statement).len(),
        node_writes(met_in(statement)[i]),
    ensures
        query_refusal(sql, parsed_sql(sql)) == Some(SqlRefusal::NotReadOnly(text_of(statement))),
{
    let parsed = parsed_sql(sql)->Ok_0;
    assert(parsed[0] == parsed_model(statement));
    lemma_writes_are_noted(
        Gathered { inner: Seq::empty(), uses: Seq::empty() },
        met_in(statement),
        i,
    );
}

/// An explanation that does not run what it explains is never refused as not read-only,
/// whatever it explains.
pub proof fn explanations_may_be_of_writes(sql: Seq<char>, statement: Statement)
    requires
        !text::is_blank(sql),
        parsed_statements(sql) == Ok::<Seq<Statement>, Seq<char>>(seq![statement]),
        kind_of(statement) == StatementKind::Explain,
    ensures
        query_refusal(sql, parsed_sql(sql)) == first_use_refusal(gathered(statement).uses, 0),
{
    assert(parsed_sql(sql)->Ok_0[0] == parsed_model(statement));
}

/// Every write that a walk meets is noted.
proof fn lemma_writes_are_noted(before: Gathered, nodes: Seq<Node>, i: int)
    requires
        0 <= i < nodes.len(),
        node_writes(nodes[i]),
    ensures
        !all_read(recorded_all(before, nodes).inner),
    decreases nodes.len(),
{
    let earlier = recorded_all(before, nodes.drop_last());
    let later = recorded_all(before, nodes);
    assert(later == recorded(earlier, nodes.last()));
    if i == nodes.len() - 1 {
        assert(!reads(later.inner[earlier.inner.len() as int]));
    } else {
        lemma_writes_are_noted(before, nodes.drop_last(), i);
        let j = choose|j: int| 0 <= j < earlier.inner.len() && !reads(#[trigger] earlier.inner[j]);
        assert(later.inner[j] == earlier.inner[j]);
    }
}

/// Whether a function is blocked does not depend on the case of its letters.
pub proof fn blocking_ignores_case(a: Seq<char>, b: Seq<char>)
    requires
        text::lower(a) == text::lower(b),
    ensures
        blocked_function(a) == blocked_function(b),
{
}

// ---------------------------------------------------------------------------
// The statements that set up a worker
// ---------------------------------------------------------------------------

/// Why the statements that set up a worker are not run.
#[derive(Debug)]
pub enum InitSqlError {
    Parse(String),
    NotAllowed(String),
}

/// The model of an [`InitSqlError`].
pub enum InitRefusal {
    Parse(Seq<char>),
    NotAllowed(Seq<char>),
}

impl View for InitSqlError {
    type V = InitRefusal;

    open spec fn view(&self) -> InitRefusal {
        match self {
            InitSqlError::Parse(report) => InitRefusal::Parse(report@),
            InitSqlError::NotAllowed(sql) => InitRefusal::NotAllowed(sql@),
        }
    }
}

pub open spec fn init_refusal_text(refusal: InitRefusal) -> Seq<char> {
    match refusal {
        InitRefusal::Parse(report) => "init.sql could not be parsed: "@ + report,
        InitRefusal::NotAllowed(sql) => "init.sql only allows CREATE VIEW and CREATE MACRO; got "@
            + sql,
    }
}

impl InitSqlError {
    /// The report of the error.
    pub fn message(&self) -> (r: String)
        ensures
            r@ == init_refusal_text(self@),
    {
        match self {
            InitSqlError::Parse(report) => {
                let mut r = "init.sql could not be parsed: ".to_owned();
                r.append(report.as_str());
                r
            },
            InitSqlError::NotAllowed(sql) => {
                let mut r = "init.sql only allows CREATE VIEW and CREATE MACRO; got ".to_owned();
                r.append(sql.as_str());
                r
            },
        }
    }
}

/// The kinds of statement that may set up a worker.
pub open spec fn sets_up(kind: StatementKind) -> bool {
    kind == StatementKind::CreateView || kind == StatementKind::CreateMacro
}

/// Why the first statement from `from` on that may not set up a worker is refused.
pub open spec fn first_init_refusal(statements: Seq<ParsedModel>, from: int) -> Option<
    InitRefusal,
>
    decreases statements.len() - from,
{
    if from >= statements.len() {
        None
    } else if sets_up(statements[from].statement.kind) {
        first_init_refusal(statements, from + 1)
    } else {
        Some(InitRefusal::NotAllowed(statements[from].sql))
    }
}

/// Why a set-up script is refused, given what parsing makes of it.
pub open spec fn init_refusal(parsed: Result<Seq<ParsedModel>, Seq<char>>) -> Option<
    InitRefusal,
> {
    match parsed {
        Err(report) => Some(InitRefusal::Parse(report)),
        Ok(statements) => first_init_refusal(statements, 0),
    }
}

/// What a check of a set-up script reports.
pub open spec fn init_refused(r: Result<(), InitSqlError>) -> Option<InitRefusal> {
    match r {
        Ok(_) => None,
        Err(error) => Some(error@),
    }
}

/// Whether a statement of a kind may set up a worker: it creates a view or a macro.
pub fn may_set_up(kind: StatementKind) -> (b: bool)
    ensures
        b == sets_up(kind),
{
    match kind {
        StatementKind::CreateView | StatementKind::CreateMacro => true,
        _ => false,
    }
}

/// Accepts a set-up script of statements that create views and macros.
pub fn validate_init_sql(sql: &str) -> (r: Result<(), InitSqlError>)
    ensures
        init_refused(r) == init_refusal(parsed_sql(sql@)),
{
    let statements = match parse_statements(sql) {
        Ok(statements) => statements,
        Err(report) => {
            return Err(InitSqlError::Parse(report));
        },
    };
    let ghost all = statements@.map_values(|s: Statement| parsed_model(s));
    let mut i: usize = 0;
    while i < statements.len()
        invariant
            i <= statements@.len(),
            all == statements@.map_values(|s: Statement| parsed_model(s)),
            parsed_sql(sql@) == Ok::<Seq<ParsedModel>, Seq<char>>(all),
            first_init_refusal(all, 0) == first_init_refusal(all, i as int),
        decreases statements@.len() - i,
    {
        assert(all[i as int] == parsed_model(statements@[i as int]));
        if !may_set_up(statement_kind(&statements[i])) {
            return Err(InitSqlError::NotAllowed(statement_text(&statements[i])));
        }
        i += 1;
    }
    Ok(())
}

/// A set-up script is accepted exactly where every statement in it creates a view or a macro.
pub proof fn scripts_create_views_and_macros_only(statements: Seq<ParsedModel>, from: int)
    requires
        0 <= from <= statements.len(),
    ensures
        first_init_refusal(statements, from) is None <==> forall|i: int|
            from <= i < statements.len() ==> sets_up((#[trigger] statements[i]).statement.kind),
    decreases statements.len() - from,
{
    if from < statements.len() {
        scripts_create_views_and_macros_only(statements, from + 1);
    }
}

/// Whether every line is empty or a comment.
pub open spec fn holds_only_comments(sql: Seq<char>) -> bool {
    let lines = text::lines_of(sql);
    forall|i: int| 0 <= i < lines.len() ==> comment_or_empty(#[trigger] lines[i])
}

pub open spec fn comment_or_empty(line: Seq<char>) -> bool {
    let line = text::trimmed(line);
    line.len() == 0 || "--"@.is_prefix_of(line)
}

/// Whether a script holds nothing but comments and empty lines.
pub fn only_comments(sql: &str) -> (b: bool)
    ensures
        b == holds_only_comments(sql@),
{
    let lines = text::lines(sql);
    let ghost all = text::lines_of(sql@);
    let mut i: usize = 0;
    while i < lines.len()
        invariant
            i <= lines@.len(),
            text::texts(lines@) == all,
            all == text::lines_of(sql@),
            forall|j: int| 0 <= j < i ==> comment_or_empty(#[trigger] all[j]),
        decreases lines@.len() - i,
    {
        assert(all[i as int] == lines@[i as int]@);
        let line = text::trim(lines[i].as_str());
        if !(line.as_str().is_empty() || text::begins_with(line.as_str(), "--")) {
            assert(!comment_or_empty(all[i as int]));
            return false;
        }
        i += 1;
    }
    true
}

/// A script of one line that begins with two dashes holds only comments.
pub proof fn a_comment_line_is_a_comment(line: Seq<char>)
    requires
        !line.contains('\n'),
        "--"@.is_prefix_of(line),
    ensures
        holds_only_comments(line.push('\n')),
{
    let script = line.push('\n');
    text::lemma_one_piece(line, '\n');
    assert(script.drop_last() =~= line);
    assert(text::split_on(script, '\n') =~= seq![line, Seq::empty()]);
    let kept = text::without_final_return(line);
    assert(text::lines_of(script) =~= seq![kept]);
    reveal_strlit("--");
    assert(line.take(2) =~= "--"@);
    assert(line[0] == '-' && line[1] == '-') by {
        assert(line.take(2)[0] == '-' && line.take(2)[1] == '-');
    }
    assert(kept.len() >= 2 && kept[0] == '-' && kept[1] == '-');
    text::lemma_trimming_keeps_a_solid_start(kept, 2);
    assert("--"@.is_prefix_of(text::trimmed(kept)));
    assert(comment_or_empty(kept));
}

/// The script that a new home starts with, which runs nothing.
pub fn init_template() -> (script: &'static str)
    ensures
        script@ == "-- Optional read-only views and macros loaded into every worker.\n"@,
        holds_only_comments(script@),
{
    proof {
        reveal_strlit("-- Optional read-only views and macros loaded into every worker.\n");
        reveal_strlit("--");
        let script = "-- Optional read-only views and macros loaded into every worker.\n"@;
        let line = script.drop_last();
        assert(line.push('\n') =~= script);
        assert(line.take(2) =~= "--"@);
        a_comment_line_is_a_comment(line);
    }
    "-- Optional read-only views and macros loaded into every worker.\n"
}

// ---------------------------------------------------------------------------
// Laws of the refusals
// ---------------------------------------------------------------------------

/// A function is refused by its name, in whatever case it is written, exactly where it opens a
/// source or runs text: the readers, the scanners, what works on Parquet files, and six others.
pub proof fn functions_are_refused_by_name(function: &str, b: bool)
    requires
        call_ensures(is_blocked_source_function, (function,), b),
    ensures
        ({
            let name = text::lower(function@);
            b <==> "read_"@.is_prefix_of(name) || "parquet_"@.is_prefix_of(name)
                || "_scan"@.is_suffix_of(name) || seq![
                "glob"@,
                "query"@,
                "query_table"@,
                "sniff_csv"@,
                "sqlite_attach"@,
                "sqlite_query"@,
            ].contains(name)
        }),
{
    let name = text::lower(function@);
    let others = seq![
        "glob"@,
        "query"@,
        "query_table"@,
        "sniff_csv"@,
        "sqlite_attach"@,
        "sqlite_query"@,
    ];
    assert(others[0] == "glob"@ && others[1] == "query"@ && others[2] == "query_table"@);
    assert(others[3] == "sniff_csv"@ && others[4] == "sqlite_attach"@ && others[5]
        == "sqlite_query"@);
    if others.contains(name) {
        let k = choose|k: int| 0 <= k < others.len() && others[k] == name;
        assert(0 <= k < 6);
    }
}

/// An `EXPLAIN` runs what it explains exactly where it says `ANALYZE`, itself or by an option of
/// that name in whatever case; every other statement is of its own kind.
pub proof fn explanations_run_where_they_analyze(node: &StatementNode, r: StatementKind)
    requires
        call_ensures(kind_of_node, (node,), r),
    ensures
        r == StatementKind::ExplainAnalyze <==> (node@ matches NodeModel::Explain {
            analyze,
            options,
        } && (analyze || (options is Some && exists|i: int|
            0 <= i < options->0.len() && text::lower(#[trigger] options->0[i]) == "analyze"@))),
        r == StatementKind::Explain || r == StatementKind::ExplainAnalyze <==> node@ is Explain,
        r == StatementKind::Query <==> node@ is Query,
        r == StatementKind::ExplainTable <==> node@ is ExplainTable,
        r == StatementKind::CreateView <==> node@ is CreateView,
        r == StatementKind::CreateMacro <==> node@ is CreateMacro,
        r == StatementKind::Other <==> node@ is Other,
{
    if let NodeModel::Explain { analyze, options } = node@ {
        if let Some(names) = options {
            if options_analyze(names) {
                let i = choose|i: int| 0 <= i < names.len() && is_analyze(#[trigger] names[i]);
                assert(text::lower(options->0[i]) == "analyze"@);
            }
            if exists|i: int|
                0 <= i < options->0.len() && text::lower(#[trigger] options->0[i])
                    == "analyze"@ {
                let i = choose|i: int|
                    0 <= i < options->0.len() && text::lower(#[trigger] options->0[i])
                        == "analyze"@;
                assert(is_analyze(names[i]));
            }
        }
    }
}

/// What counts of a name is its last part, where that is an identifier: its text and how it is
/// quoted.
pub proof fn the_last_part_of_a_name_counts(kind: UseKind, name: &Name, r: SourceUse)
    requires
        call_ensures(source_use, (kind, name), r),
    ensures
        r@.kind == kind,
        r@.sql == name@.sql,
        name@.parts.len() > 0 ==> (name@.parts.last() matches PartModel::Identifier { value, quote }
            ==> r@.last == Some(value) && r@.quote == quote),
        name@.parts.len() == 0 || name@.parts.last() is Other ==> r@.last is None,
{
}

/// Whether a kind of statement reads and does nothing else.
pub open spec fn kind_only_reads(kind: StatementKind) -> bool {
    kind != StatementKind::CreateView && kind != StatementKind::CreateMacro && kind
        != StatementKind::Other
}

/// Running a statement only reads where it is a query or an explanation, and, unless it is
/// explained without being run, everything in it is too.
pub proof fn reading_statements_hold_only_reading_ones(statement: &ParsedStatement, b: bool)
    requires
        call_ensures(is_read_only, (statement,), b),
    ensures
        b <==> kind_only_reads(statement@.kind) && (statement@.kind == StatementKind::Explain || (
        forall|i: int| 0 <= i < statement@.inner.len() ==> kind_only_reads(
            #[trigger] statement@.inner[i],
        ))),
{
    assert forall|kind: StatementKind| #[trigger] kind_only_reads(kind) <==> reads(kind) by {
    }
    if all_read(statement@.inner) {
        assert forall|i: int| 0 <= i < statement@.inner.len() implies kind_only_reads(
            #[trigger] statement@.inner[i],
        ) by {
            assert(reads(statement@.inner[i]));
        }
    }
    if forall|i: int| 0 <= i < statement@.inner.len() ==> kind_only_reads(
        #[trigger] statement@.inner[i],
    ) {
        assert forall|i: int| 0 <= i < statement@.inner.len() implies reads(
            #[trigger] statement@.inner[i],
        ) by {
            assert(kind_only_reads(statement@.inner[i]));
        }
    }
}

/// Whether a use of a name is refused: it calls a function that is refused, or it reads a relation
/// that is written between single quotes.
pub open spec fn opens_a_source(u: UseModel) -> bool {
    u.last matches Some(last) && (if u.kind == UseKind::Function {
        blocked_function(last)
    } else {
        u.quote == Some('\'')
    })
}

proof fn lemma_first_use(uses: Seq<UseModel>, from: int, k: int)
    requires
        0 <= from <= k <= uses.len(),
        forall|i: int| from <= i < k ==> !opens_a_source(#[trigger] uses[i]),
    ensures
        first_use_refusal(uses, from) == first_use_refusal(uses, k),
    decreases k - from,
{
    if from < k {
        assert(!opens_a_source(uses[from]));
        lemma_first_use(uses, from + 1, k);
    }
}

/// Of the uses of names in a statement the first that opens a source is reported: a call by how
/// it is written, and a relation by its name. Where none does, the statement is accepted.
pub proof fn the_first_refused_use_is_told(
    statement: &ParsedStatement,
    r: Result<(), SqlValidationError>,
    k: int,
)
    requires
        call_ensures(validate_source_functions, (statement,), r),
        0 <= k <= statement@.uses.len(),
        forall|i: int| 0 <= i < k ==> !opens_a_source(#[trigger] statement@.uses[i]),
        k < statement@.uses.len() ==> opens_a_source(statement@.uses[k]),
    ensures
        r is Ok <==> k == statement@.uses.len(),
        k < statement@.uses.len() && statement@.uses[k].kind == UseKind::Function ==> (
        r matches Err(error) && error@ == SqlRefusal::SourceFunctionNotAllowed(
            statement@.uses[k].sql,
        )),
        k < statement@.uses.len() && statement@.uses[k].kind == UseKind::Relation ==> (
        r matches Err(error) && error@ == SqlRefusal::SourceRelationNotAllowed(
            statement@.uses[k].last->0,
        )),
{
    lemma_first_use(statement@.uses, 0, k);
}

/// A query is refused, in this order: where it is blank, where it cannot be parsed, where it is
/// not one statement, where running that would not only read, and where a name in it opens a
/// source. Any other is accepted.
pub proof fn queries_are_refused_in_order(
    sql: &str,
    r: Result<(), SqlValidationError>,
    k: int,
)
    requires
        call_ensures(validate_read_only, (sql,), r),
    ensures
        text::trimmed(sql@).len() == 0 ==> (r matches Err(error) && error is Empty),
        text::trimmed(sql@).len() > 0 ==> match parsed_sql(sql@) {
            Err(report) => r matches Err(error) && error@ == SqlRefusal::Parse(report),
            Ok(statements) => {
                &&& statements.len() != 1 ==> (r matches Err(error) && error@
                    == SqlRefusal::StatementCount(statements.len()))
                &&& statements.len() == 1 ==> ({
                    let statement = statements[0].statement;
                    let only = kind_only_reads(statement.kind) && (statement.kind
                        == StatementKind::Explain || all_read(statement.inner));
                    let uses = statement.uses;
                    let first = 0 <= k < uses.len() && opens_a_source(uses[k]) && (forall|i: int|
                        0 <= i < k ==> !opens_a_source(#[trigger] uses[i]));
                    &&& !only ==> (r matches Err(error) && error@ == SqlRefusal::NotReadOnly(
                        statements[0].sql,
                    ))
                    &&& only && first ==> (r matches Err(error) && use_refusal(uses[k]) == Some(
                        error@,
                    ))
                    &&& only && (forall|i: int|
                        0 <= i < uses.len() ==> !opens_a_source(#[trigger] uses[i])) ==> r is Ok
                })
            },
        },
{
    text::blank_text_trims_to_nothing(sql@);
    if let Err(error) = r {
        assert(refused(r) == Some(error@));
    }
    if let Ok(statements) = parsed_sql(sql@) {
        if statements.len() == 1 {
            let uses = statements[0].statement.uses;
            if 0 <= k < uses.len() && opens_a_source(uses[k]) && (forall|i: int|
                0 <= i < k ==> !opens_a_source(#[trigger] uses[i])) {
                lemma_first_use(uses, 0, k);
            }
            if forall|i: int| 0 <= i < uses.len() ==> !opens_a_source(#[trigger] uses[i]) {
                lemma_first_use(uses, 0, uses.len() as int);
            }
        }
    }
}

/// The report of a refusal ends with what was refused, or holds it between quotes, and tells the
/// refusals apart.
pub proof fn refusals_tell_what_was_refused(error: &SqlValidationError, r: String)
    requires
        call_ensures(SqlValidationError::message, (error,), r),
    ensures
        error is Empty ==> r@ == "SQL must not be empty"@,
        error matches SqlValidationError::Parse(report) ==> "SQL could not be parsed as DuckDB SQL: "@
            .is_prefix_of(r@) && r@.skip("SQL could not be parsed as DuckDB SQL: "@.len() as int)
            == report@,
        error matches SqlValidationError::StatementCount(count) ==> "exactly one "@.is_prefix_of(r@)
            && ("received "@ + numeral::numeral(count as nat)).is_suffix_of(r@),
        error matches SqlValidationError::NotReadOnly(sql) ==> "only read-only "@.is_prefix_of(r@)
            && ("; got "@ + sql@).is_suffix_of(r@),
        error matches SqlValidationError::SourceFunctionNotAllowed(sql) ==> ("source function '"@
            + sql@ + "' is not allowed"@).is_prefix_of(r@),
        error matches SqlValidationError::SourceRelationNotAllowed(name) ==> ("source relation '"@
            + name@ + "' is not allowed"@).is_prefix_of(r@),
{
    match error {
        SqlValidationError::Empty => {},
        SqlValidationError::Parse(report) => {
            let head = "SQL could not be parsed as DuckDB SQL: "@;
            assert(r@.take(head.len() as int) =~= head);
            assert(r@.skip(head.len() as int) =~= report@);
        },
        SqlValidationError::StatementCount(count) => {
            reveal_strlit("exactly one SQL statement is allowed; received ");
            reveal_strlit("exactly one ");
            reveal_strlit("received ");
            let end = "received "@ + numeral::numeral(*count as nat);
            assert(r@.take(12) =~= "exactly one "@);
            assert(r@.skip(r@.len() - end.len()) =~= end);
        },
        SqlValidationError::NotReadOnly(sql) => {
            reveal_strlit("only read-only query statements are allowed; got ");
            reveal_strlit("only read-only ");
            reveal_strlit("; got ");
            let end = "; got "@ + sql@;
            assert(r@.take(15) =~= "only read-only "@);
            assert(r@.skip(r@.len() - end.len()) =~= end);
        },
        SqlValidationError::SourceFunctionNotAllowed(sql) => {
            reveal_strlit(
                "' is not allowed; query registered backend tables or logical views instead",
            );
            reveal_strlit("' is not allowed");
            let head = "source function '"@ + sql@ + "' is not allowed"@;
            assert(r@.take(head.len() as int) =~= head);
        },
        SqlValidationError::SourceRelationNotAllowed(name) => {
            reveal_strlit(
                "' is not allowed; query registered backend tables or logical views instead",
            );
            reveal_strlit("' is not allowed");
            let head = "source relation '"@ + name@ + "' is not allowed"@;
            assert(r@.take(head.len() as int) =~= head);
        },
    }
}

proof fn lemma_first_init(statements: Seq<ParsedModel>, from: int, k: int)
    requires
        0 <= from <= k <= statements.len(),
        forall|i: int| from <= i < k ==> sets_up((#[trigger] statements[i]).statement.kind),
    ensures
        first_init_refusal(statements, from) == first_init_refusal(statements, k),
    decreases k - from,
{
    if from < k {
        assert(sets_up(statements[from].statement.kind));
        lemma_first_init(statements, from + 1, k);
    }
}

/// A set-up script may hold statements that create views and macros, and no other: the first
/// other is told. A script that cannot be parsed is refused with the report of that.
pub proof fn the_first_refused_statement_is_told(
    sql: &str,
    r: Result<(), InitSqlError>,
    k: int,
)
    requires
        call_ensures(validate_init_sql, (sql,), r),
    ensures
        match parsed_sql(sql@) {
            Err(report) => r matches Err(InitSqlError::Parse(told)) && told@ == report,
            Ok(statements) => {
                let may = |i: int|
                    statements[i].statement.kind == StatementKind::CreateView
                        || statements[i].statement.kind == StatementKind::CreateMacro;
                &&& (forall|i: int| 0 <= i < statements.len() ==> #[trigger] may(i)) ==> r is Ok
                &&& 0 <= k < statements.len() && !may(k) && (forall|i: int|
                    0 <= i < k ==> #[trigger] may(i)) ==> (r matches Err(
                    InitSqlError::NotAllowed(told),
                ) && told@ == statements[k].sql)
            },
        },
{
    if let Err(error) = r {
        assert(init_refused(r) == Some(error@));
    }
    if let Ok(statements) = parsed_sql(sql@) {
        let may = |i: int|
            statements[i].statement.kind == StatementKind::CreateView
                || statements[i].statement.kind == StatementKind::CreateMacro;
        if forall|i: int| 0 <= i < statements.len() ==> #[trigger] may(i) {
            assert forall|i: int| 0 <= i < statements.len() implies sets_up(
                (#[trigger] statements[i]).statement.kind,
            ) by {
                assert(may(i));
            }
            lemma_first_init(statements, 0, statements.len() as int);
        }
        if 0 <= k < statements.len() && !may(k) && (forall|i: int|
            0 <= i < k ==> #[trigger] may(i)) {
            assert forall|i: int| 0 <= i < k implies sets_up(
                (#[trigger] statements[i]).statement.kind,
            ) by {
                assert(may(i));
            }
            lemma_first_init(statements, 0, k);
        }
    }
}

/// A kind of statement may set up a worker exactly where it creates a view or a macro, and the
/// report of a script that is refused ends with the cause or with the statement.
pub proof fn script_errors_tell_their_cause(
    kind: StatementKind,
    b: bool,
    error: &InitSqlError,
    r: String,
)
    requires
        call_ensures(may_set_up, (kind,), b),
        call_ensures(InitSqlError::message, (error,), r),
    ensures
        b <==> kind == StatementKind::CreateView || kind == StatementKind::CreateMacro,
        "init.sql "@.is_prefix_of(r@),
        error matches InitSqlError::Parse(report) ==> ("could not be parsed: "@
            + report@).is_suffix_of(r@),
        error matches InitSqlError::NotAllowed(sql) ==> ("; got "@ + sql@).is_suffix_of(r@),
{
    reveal_strlit("init.sql ");
    reveal_strlit("init.sql could not be parsed: ");
    reveal_strlit("init.sql only allows CREATE VIEW and CREATE MACRO; got ");
    reveal_strlit("could not be parsed: ");
    reveal_strlit("; got ");
    assert(r@.take(9) =~= "init.sql "@);
    match error {
        InitSqlError::Parse(report) => {
            let end = "could not be parsed: "@ + report@;
            assert(r@.skip(r@.len() - end.len()) =~= end);
        },
        InitSqlError::NotAllowed(sql) => {
            let end = "; got "@ + sql@;
            assert(r@.skip(r@.len() - end.len()) =~= end);
        },
    }
}

/// A script holds only comments exactly where each of its lines is blank or, behind the white
/// space at its start, begins with two dashes.
pub proof fn comments_begin_with_two_dashes(sql: &str, b: bool)
    requires
        call_ensures(only_comments, (sql,), b),
    ensures
        b <==> forall|i: int|
            0 <= i < text::lines_of(sql@).len() ==> text::is_blank(
                #[trigger] text::lines_of(sql@)[i],
            ) || "--"@.is_prefix_of(text::trimmed(text::lines_of(sql@)[i])),
{
    let lines = text::lines_of(sql@);
    assert forall|i: int| 0 <= i < lines.len() implies (comment_or_empty(#[trigger] lines[i])
        <==> text::is_blank(lines[i]) || "--"@.is_prefix_of(text::trimmed(lines[i]))) by {
        text::blank_text_trims_to_nothing(lines[i]);
    }
}

/// Whether a name ends with an identifier, and what it is and how it is quoted.
pub open spec fn ending(name: ObjectName) -> Option<(Seq<char>, Option<char>)> {
    let parts = name_of(name).parts;
    if parts.len() > 0 {
        match parts.last() {
            PartModel::Identifier { value, quote } => Some((value, quote)),
            PartModel::Other => None,
        }
    } else {
        None
    }
}

/// Whether calling a name opens a source: it ends with the name of a function that is refused.
pub open spec fn calls_a_source(name: ObjectName) -> bool {
    ending(name) matches Some((value, _)) && blocked_function(value)
}

/// Whether a node of a statement reaches beyond what is registered: it calls a function that is
/// refused, in an expression, in a `FROM` clause or as a table with arguments, or it reads a
/// relation whose name is written between single quotes.
pub open spec fn reaches_beyond(node: Node) -> bool {
    match node {
        Node::Table(factor) => match table_of(factor) {
            TableModel::Table { name, arguments } => arguments && calls_a_source(name),
            TableModel::Function { name } => calls_a_source(name),
            TableModel::Other => false,
        },
        Node::Expression(expr) => called_in(expr) matches Some(name) && calls_a_source(name),
        Node::Relation(name) => ending(name) matches Some((_, quote)) && quote == Some('\''),
        Node::Statement(_) => false,
        Node::Select(_) => false,
    }
}

/// Whether a node of a statement writes: a statement that creates something or is of a kind that
/// is not known to read, or a `SELECT` that makes a table of what it selects.
pub open spec fn changes_something(node: Node) -> bool {
    match node {
        Node::Statement(statement) => node_of(statement) is CreateView || node_of(
            statement,
        ) is CreateMacro || node_of(statement) is Other,
        Node::Select(select) => has_into(select),
        _ => false,
    }
}

proof fn lemma_walk(before: Gathered, nodes: Seq<Node>)
    requires
        forall|i: int| 0 <= i < before.uses.len() ==> !opens_a_source(#[trigger] before.uses[i]),
        all_read(before.inner),
    ensures
        ({
            let after = recorded_all(before, nodes);
            &&& (forall|i: int| 0 <= i < after.uses.len() ==> !opens_a_source(
                #[trigger] after.uses[i],
            )) <==> (forall|i: int| 0 <= i < nodes.len() ==> !reaches_beyond(#[trigger] nodes[i]))
            &&& all_read(after.inner) <==> (forall|i: int|
                0 <= i < nodes.len() ==> !changes_something(#[trigger] nodes[i]))
        }),
    decreases nodes.len(),
{
    if nodes.len() > 0 {
        let front = nodes.drop_last();
        let last = nodes.last();
        lemma_walk(before, front);
        let earlier = recorded_all(before, front);
        let after = recorded_all(before, nodes);
        assert(after == recorded(earlier, last));
        assert(nodes[nodes.len() - 1] == last);
        assert forall|i: int| 0 <= i < front.len() implies #[trigger] front[i] == nodes[i] by {
        }
        lemma_step(earlier, last);
        if forall|i: int| 0 <= i < nodes.len() ==> !reaches_beyond(#[trigger] nodes[i]) {
            assert forall|i: int| 0 <= i < front.len() implies !reaches_beyond(
                #[trigger] front[i],
            ) by {
                assert(!reaches_beyond(nodes[i]));
            }
        }
        if (forall|i: int| 0 <= i < front.len() ==> !reaches_beyond(#[trigger] front[i]))
            && !reaches_beyond(last) {
            assert forall|i: int| 0 <= i < nodes.len() implies !reaches_beyond(
                #[trigger] nodes[i],
            ) by {
                if i < front.len() {
                    assert(front[i] == nodes[i]);
                }
            }
        }
        if forall|i: int| 0 <= i < nodes.len() ==> !changes_something(#[trigger] nodes[i]) {
            assert forall|i: int| 0 <= i < front.len() implies !changes_something(
                #[trigger] front[i],
            ) by {
                assert(!changes_something(nodes[i]));
            }
        }
        if (forall|i: int| 0 <= i < front.len() ==> !changes_something(#[trigger] front[i]))
            && !changes_something(last) {
            assert forall|i: int| 0 <= i < nodes.len() implies !changes_something(
                #[trigger] nodes[i],
            ) by {
                if i < front.len() {
                    assert(front[i] == nodes[i]);
                }
            }
        }
    }
}

proof fn lemma_step(before: Gathered, node: Node)
    ensures
        ({
            let after = recorded(before, node);
            &&& (forall|i: int| 0 <= i < after.uses.len() ==> !opens_a_source(
                #[trigger] after.uses[i],
            )) <==> (forall|i: int| 0 <= i < before.uses.len() ==> !opens_a_source(
                #[trigger] before.uses[i],
            )) && !reaches_beyond(node)
            &&& all_read(after.inner) <==> all_read(before.inner) && !changes_something(node)
        }),
{
    let after = recorded(before, node);
    if after.uses.len() > before.uses.len() {
        let one = after.uses.last();
        assert(after.uses =~= before.uses.push(one));
        assert(after.uses[before.uses.len() as int] == one);
        assert(opens_a_source(one) <==> reaches_beyond(node));
    } else {
        assert(after.uses =~= before.uses);
        assert(!reaches_beyond(node));
    }
    assert forall|i: int| 0 <= i < before.uses.len() implies #[trigger] before.uses[i]
        == after.uses[i] by {
    }
    if forall|i: int| 0 <= i < after.uses.len() ==> !opens_a_source(#[trigger] after.uses[i]) {
        assert forall|i: int| 0 <= i < before.uses.len() implies !opens_a_source(
            #[trigger] before.uses[i],
        ) by {
            assert(!opens_a_source(after.uses[i]));
        }
        if after.uses.len() > before.uses.len() {
            assert(!opens_a_source(after.uses[before.uses.len() as int]));
        }
    }
    if (forall|i: int| 0 <= i < before.uses.len() ==> !opens_a_source(#[trigger] before.uses[i]))
        && !reaches_beyond(node) {
        assert forall|i: int| 0 <= i < after.uses.len() implies !opens_a_source(
            #[trigger] after.uses[i],
        ) by {
            if i < before.uses.len() {
                assert(before.uses[i] == after.uses[i]);
            }
        }
    }
    if after.inner.len() > before.inner.len() {
        let kind = after.inner.last();
        assert(after.inner =~= before.inner.push(kind));
        assert(after.inner[before.inner.len() as int] == kind);
        assert(!reads(kind) <==> changes_something(node));
        if all_read(after.inner) {
            assert forall|i: int| 0 <= i < before.inner.len() implies reads(
                #[trigger] before.inner[i],
            ) by {
                assert(reads(after.inner[i]));
            }
        }
        if all_read(before.inner) && reads(kind) {
            assert forall|i: int| 0 <= i < after.inner.len() implies reads(
                #[trigger] after.inner[i],
            ) by {
                if i < before.inner.len() {
                    assert(reads(before.inner[i]));
                }
            }
        }
    } else {
        assert(after.inner =~= before.inner);
        assert(!changes_something(node));
    }
}

/// A query of one statement is accepted exactly where the statement itself changes nothing,
/// nothing in it does, unless it is only explained, and nothing in it reaches beyond what is
/// registered, at whatever depth and even where it is only explained.
pub proof fn queries_are_accepted_by_what_they_hold(
    sql: &str,
    statement: Statement,
    r: Result<(), SqlValidationError>,
)
    requires
        call_ensures(validate_read_only, (sql,), r),
        !text::is_blank(sql@),
        parsed_statements(sql@) == Ok::<Seq<Statement>, Seq<char>>(seq![statement]),
    ensures
        ({
            let nodes = met_in(statement);
            r is Ok <==> !changes_something(Node::Statement(statement)) && (kind_of(statement)
                == StatementKind::Explain || (forall|i: int|
                0 <= i < nodes.len() ==> !changes_something(#[trigger] nodes[i]))) && (forall|
                i: int,
            |
                0 <= i < nodes.len() ==> !reaches_beyond(#[trigger] nodes[i]))
        }),
{
    let start = Gathered { inner: Seq::empty(), uses: Seq::empty() };
    let nodes = met_in(statement);
    let parsed = parsed_sql(sql@)->Ok_0;
    assert(parsed[0] == parsed_model(statement));
    assert(parsed.len() == 1);
    lemma_walk(start, nodes);
    let uses = gathered(statement).uses;
    if forall|i: int| 0 <= i < uses.len() ==> !opens_a_source(#[trigger] uses[i]) {
        lemma_first_use(uses, 0, uses.len() as int);
    } else {
        if first_use_refusal(uses, 0) is None {
            lemma_no_use_is_refused(uses, 0);
            let i = choose|i: int| 0 <= i < uses.len() && opens_a_source(#[trigger] uses[i]);
            assert(use_refusal(uses[i]) is None);
        }
    }
}

/// What a text is parsed to is told statement by statement, in order: each by its text, its kind
/// and what a walk through it meets.
pub proof fn parsed_statements_are_told_in_place(sql: Seq<char>, i: int)
    ensures
        match parsed_statements(sql) {
            Err(report) => parsed_sql(sql) == Err::<Seq<ParsedModel>, Seq<char>>(report),
            Ok(statements) => parsed_sql(sql) matches Ok(told) && told.len() == statements.len()
                && (0 <= i < statements.len() ==> told[i].sql == text_of(statements[i])
                && told[i].statement.kind == node_kind(node_of(statements[i]))),
        },
{
}

/// The script that a new home starts with is never run: it holds only comments.
pub proof fn new_homes_run_nothing(script: &'static str, b: bool)
    requires
        call_ensures(init_template, (), script),
        call_ensures(only_comments, (script,), b),
    ensures
        b,
        "-- "@.is_prefix_of(script@),
{
    reveal_strlit("-- Optional read-only views and macros loaded into every worker.\n");
    reveal_strlit("-- ");
    assert(script@.take(3) =~= "-- "@);
}

} // verus!
