//! The syntax tree of a program, and its mathematical view.
use vstd::prelude::*;

verus! {

#[derive(Debug)]
pub struct Program {
    pub items: Vec<Item>,
}

#[derive(Debug)]
pub enum Item {
    Function(Function),
    VarDecl(VarDecl),
}

#[derive(Debug)]
pub struct Function {
    pub is_pub: bool,
    pub name: String,
    pub params: Vec<Param>,
    pub return_type: Option<String>,
    pub body: Vec<Stmt>,
}

#[derive(Debug)]
pub struct Param {
    pub ty: String,
    pub name: String,
}

#[derive(Debug)]
pub enum Stmt {
    VarDecl(VarDecl),
    MacroCall(MacroCall),
    FunctionCall(FunctionCall),
    Assignment(Assignment),
    If(IfStmt),
    While(WhileStmt),
    For(ForStmt),
    ForEach(ForEachStmt),
    Break,
    Continue,
    Return(ReturnStmt),
}

#[derive(Debug)]
pub struct VarDecl {
    pub ty: String,
    pub name: String,
    pub value: Expr,
}

#[derive(Debug)]
pub struct MacroCall {
    pub name: String,
    pub args: Vec<Expr>,
}

#[derive(Debug)]
pub struct FunctionCall {
    pub name: String,
    pub args: Vec<Expr>,
}

#[derive(Debug)]
pub struct Assignment {
    pub name: String,
    pub value: Expr,
}

#[derive(Debug)]
pub struct IfStmt {
    pub condition: Expr,
    pub then_body: Vec<Stmt>,
    pub else_body: Option<Vec<Stmt>>,
}

#[derive(Debug)]
pub struct WhileStmt {
    pub condition: Expr,
    pub body: Vec<Stmt>,
}

#[derive(Debug)]
pub struct ForStmt {
    pub initializer: VarDecl,
    pub condition: Expr,
    pub update: Assignment,
    pub body: Vec<Stmt>,
}

#[derive(Debug)]
pub struct ForEachStmt {
    pub item_ty: String,
    pub item_name: String,
    pub iterable: Expr,
    pub body: Vec<Stmt>,
}

#[derive(Debug)]
pub struct ReturnStmt {
    pub value: Expr,
}

#[derive(Debug)]
pub enum Expr {
    Int(i64),
    Str(String),
    Bool(bool),
    Ident(String),
    ArrayLiteral(Vec<Expr>),
    DictLiteral(Vec<(String, Expr)>),
    Index { target: Box<Expr>, index: Box<Expr> },
    Call { name: String, args: Vec<Expr> },
    Unary { op: UnaryOp, expr: Box<Expr> },
    Binary { left: Box<Expr>, op: BinaryOp, right: Box<Expr> },
}

#[derive(Debug, Clone, Copy, PartialEq, Eq, Structural)]
pub enum UnaryOp {
    Not,
    Neg,
}

#[derive(Debug, Clone, Copy, PartialEq, Eq, Structural)]
pub enum BinaryOp {
    Add,
    Sub,
    Mul,
    Div,
    Eq,
    NotEq,
    Less,
    Greater,
    LessEq,
    GreaterEq,
    And,
    Or,
}

// ---------------------------------------------------------------------------
// Views: texts become character sequences, vectors become sequences.
// ---------------------------------------------------------------------------

pub enum ExprV {
    Int(i64),
    Str(Seq<char>),
    Bool(bool),
    Ident(Seq<char>),
    ArrayLiteral(Seq<ExprV>),
    DictLiteral(Seq<(Seq<char>, ExprV)>),
    Index { target: Box<ExprV>, index: Box<ExprV> },
    Call { name: Seq<char>, args: Seq<ExprV> },
    Unary { op: UnaryOp, expr: Box<ExprV> },
    Binary { left: Box<ExprV>, op: BinaryOp, right: Box<ExprV> },
}

pub struct VarDeclV {
    pub ty: Seq<char>,
    pub name: Seq<char>,
    pub value: ExprV,
}

pub struct AssignmentV {
    pub name: Seq<char>,
    pub value: ExprV,
}

pub enum StmtV {
    VarDecl(VarDeclV),
    MacroCall { name: Seq<char>, args: Seq<ExprV> },
    FunctionCall { name: Seq<char>, args: Seq<ExprV> },
    Assignment(AssignmentV),
    If { condition: ExprV, then_body: Seq<StmtV>, else_body: Option<Seq<StmtV>> },
    While { condition: ExprV, body: Seq<StmtV> },
    For { initializer: VarDeclV, condition: ExprV, update: AssignmentV, body: Seq<StmtV> },
    ForEach { item_ty: Seq<char>, item_name: Seq<char>, iterable: ExprV, body: Seq<StmtV> },
    Break,
    Continue,
    Return { value: ExprV },
}

pub struct ParamV {
    pub ty: Seq<char>,
    pub name: Seq<char>,
}

pub struct FunctionV {
    pub is_pub: bool,
    pub name: Seq<char>,
    pub params: Seq<ParamV>,
    pub return_type: Option<Seq<char>>,
    pub body: Seq<StmtV>,
}

pub enum ItemV {
    Function(FunctionV),
    VarDecl(VarDeclV),
}

pub struct ProgramV {
    pub items: Seq<ItemV>,
}

/// The views of a sequence of expressions.
pub open spec fn exprs_view(s: Seq<Expr>) -> Seq<ExprV>
    decreases s,
{
    if s.len() == 0 {
        Seq::empty()
    } else {
        exprs_view(s.drop_last()).push(s.last().view())
    }
}

/// The views of the entries of a dictionary literal.
pub open spec fn entries_view(s: Seq<(String, Expr)>) -> Seq<(Seq<char>, ExprV)>
    decreases s,
{
    if s.len() == 0 {
        Seq::empty()
    } else {
        entries_view(s.drop_last()).push((s.last().0@, s.last().1.view()))
    }
}

impl View for Expr {
    type V = ExprV;

    open spec fn view(&self) -> ExprV
        decreases self,
    {
        match self {
            Expr::Int(i) => ExprV::Int(*i),
            Expr::Str(s) => ExprV::Str(s@),
            Expr::Bool(b) => ExprV::Bool(*b),
            Expr::Ident(s) => ExprV::Ident(s@),
            Expr::ArrayLiteral(v) => ExprV::ArrayLiteral(exprs_view(v@)),
            Expr::DictLiteral(v) => ExprV::DictLiteral(entries_view(v@)),
            Expr::Index { target, index } => ExprV::Index {
                target: Box::new((**target).view()),
                index: Box::new((**index).view()),
            },
            Expr::Call { name, args } => ExprV::Call { name: name@, args: exprs_view(args@) },
            Expr::Unary { op, expr } => ExprV::Unary { op: *op, expr: Box::new((**expr).view()) },
            Expr::Binary { left, op, right } => ExprV::Binary {
                left: Box::new((**left).view()),
                op: *op,
                right: Box::new((**right).view()),
            },
        }
    }
}

impl View for VarDecl {
    type V = VarDeclV;

    open spec fn view(&self) -> VarDeclV {
        VarDeclV { ty: self.ty@, name: self.name@, value: self.value@ }
    }
}

impl View for Assignment {
    type V = AssignmentV;

    open spec fn view(&self) -> AssignmentV {
        AssignmentV { name: self.name@, value: self.value@ }
    }
}

/// The views of a sequence of statements.
pub open spec fn stmts_view(s: Seq<Stmt>) -> Seq<StmtV>
    decreases s,
{
    if s.len() == 0 {
        Seq::empty()
    } else {
        stmts_view(s.drop_last()).push(s.last().view())
    }
}

impl View for Stmt {
    type V = StmtV;

    open spec fn view(&self) -> StmtV
        decreases self,
    {
        match self {
            Stmt::VarDecl(d) => StmtV::VarDecl(d@),
            Stmt::MacroCall(c) => StmtV::MacroCall { name: c.name@, args: exprs_view(c.args@) },
            Stmt::FunctionCall(c) => StmtV::FunctionCall {
                name: c.name@,
                args: exprs_view(c.args@),
            },
            Stmt::Assignment(a) => StmtV::Assignment(a@),
            Stmt::If(s) => StmtV::If {
                condition: s.condition@,
                then_body: stmts_view(s.then_body@),
                else_body: match &s.else_body {
                    Some(b) => Some(stmts_view(b@)),
                    None => None,
                },
            },
            Stmt::While(s) => StmtV::While { condition: s.condition@, body: stmts_view(s.body@) },
            Stmt::For(s) => StmtV::For {
                initializer: s.initializer@,
                condition: s.condition@,
                update: s.update@,
                body: stmts_view(s.body@),
            },
            Stmt::ForEach(s) => StmtV::ForEach {
                item_ty: s.item_ty@,
                item_name: s.item_name@,
                iterable: s.iterable@,
                body: stmts_view(s.body@),
            },
            Stmt::Break => StmtV::Break,
            Stmt::Continue => StmtV::Continue,
            Stmt::Return(r) => StmtV::Return { value: r.value@ },
        }
    }
}

impl View for Param {
    type V = ParamV;

    open spec fn view(&self) -> ParamV {
        ParamV { ty: self.ty@, name: self.name@ }
    }
}

/// The views of a sequence of parameters.
pub open spec fn params_view(s: Seq<Param>) -> Seq<ParamV> {
    s.map_values(|p: Param| p@)
}

impl View for Function {
    type V = FunctionV;

    open spec fn view(&self) -> FunctionV {
        FunctionV {
            is_pub: self.is_pub,
            name: self.name@,
            params: params_view(self.params@),
            return_type: match &self.return_type {
                Some(t) => Some(t@),
                None => None,
            },
            body: stmts_view(self.body@),
        }
    }
}

impl View for Item {
    type V = ItemV;

    open spec fn view(&self) -> ItemV {
        match self {
            Item::Function(f) => ItemV::Function(f@),
            Item::VarDecl(d) => ItemV::VarDecl(d@),
        }
    }
}

/// The views of a sequence of items.
pub open spec fn items_view(s: Seq<Item>) -> Seq<ItemV> {
    s.map_values(|i: Item| i@)
}

impl View for Program {
    type V = ProgramV;

    open spec fn view(&self) -> ProgramV {
        ProgramV { items: items_view(self.items@) }
    }
}

// ---------------------------------------------------------------------------
// Facts about the sequence views
// ---------------------------------------------------------------------------

pub broadcast proof fn lemma_exprs_view(s: Seq<Expr>)
    ensures
        #[trigger] exprs_view(s).len() == s.len(),
        forall|i: int| 0 <= i < s.len() ==> #[trigger] exprs_view(s)[i] == s[i]@,
    decreases s.len(),
{
    if s.len() > 0 {
        lemma_exprs_view(s.drop_last());
        assert(exprs_view(s) == exprs_view(s.drop_last()).push(s.last()@));
    }
}

pub broadcast proof fn lemma_entries_view(s: Seq<(String, Expr)>)
    ensures
        #[trigger] entries_view(s).len() == s.len(),
        forall|i: int|
            0 <= i < s.len() ==> #[trigger] entries_view(s)[i] == (s[i].0@, s[i].1@),
    decreases s.len(),
{
    if s.len() > 0 {
        lemma_entries_view(s.drop_last());
        assert(entries_view(s) == entries_view(s.drop_last()).push((s.last().0@, s.last().1@)));
    }
}

pub broadcast proof fn lemma_stmts_view(s: Seq<Stmt>)
    ensures
        #[trigger] stmts_view(s).len() == s.len(),
        forall|i: int| 0 <= i < s.len() ==> #[trigger] stmts_view(s)[i] == s[i]@,
    decreases s.len(),
{
    if s.len() > 0 {
        lemma_stmts_view(s.drop_last());
        assert(stmts_view(s) == stmts_view(s.drop_last()).push(s.last()@));
    }
}

pub proof fn lemma_exprs_view_push(s: Seq<Expr>, e: Expr)
    ensures
        exprs_view(s.push(e)) == exprs_view(s).push(e@),
{
    assert(s.push(e).drop_last() =~= s);
}

pub proof fn lemma_entries_view_push(s: Seq<(String, Expr)>, e: (String, Expr))
    ensures
        entries_view(s.push(e)) == entries_view(s).push((e.0@, e.1@)),
{
    assert(s.push(e).drop_last() =~= s);
}

pub proof fn lemma_stmts_view_push(s: Seq<Stmt>, e: Stmt)
    ensures
        stmts_view(s.push(e)) == stmts_view(s).push(e@),
{
    assert(s.push(e).drop_last() =~= s);
}

pub broadcast group group_ast_views {
    lemma_exprs_view,
    lemma_entries_view,
    lemma_stmts_view,
}

} // verus!
