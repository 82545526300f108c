//! The syntax tree of a program, and its mathematical view.
use vstd::prelude::*;
use crate::text::str_eq;

verus! {

/// A global variable declaration: `let name` at the top level.
#[derive(Debug)]
pub struct GlobalVariableAST {
    pub name: String,
}

/// How a function is meant to be called.
#[derive(Debug, Clone, Copy, PartialEq, Eq, Structural)]
pub enum FunctionStyle {
    Normal,
    Inline,
}

/// A function declaration. Parameter lists are parsed but not kept.
#[derive(Debug)]
pub struct FunctionAST {
    pub name: String,
    pub statements: Vec<StatementASTNode>,
    pub style: FunctionStyle,
}

/// A local variable declaration: `let name` inside a block.
#[derive(Debug)]
pub struct LocalVariableAST {
    pub name: String,
}

/// `target = value`.
#[derive(Debug)]
pub struct AssignmentAST {
    pub target_var_name: String,
    pub value: ExpressionASTNode,
}

/// `if condition { then_block } else { else_block }`.
#[derive(Debug)]
pub struct IfAST {
    pub condition: ExpressionASTNode,
    pub then_block: Vec<StatementASTNode>,
    pub else_block: Vec<StatementASTNode>,
}

/// `while condition { do_block }`.
#[derive(Debug)]
pub struct WhileAST {
    pub condition: ExpressionASTNode,
    pub do_block: Vec<StatementASTNode>,
}

/// A statement.
#[derive(Debug)]
pub enum StatementASTNode {
    LocalVariableAST(LocalVariableAST),
    AssignmentAST(AssignmentAST),
    ExpressionAST(ExpressionASTNode),
    IfAST(IfAST),
    WhileAST(WhileAST),
}

/// `function_name(args, ...)`.
#[derive(Debug)]
pub struct FunctionCallAST {
    pub function_name: String,
    pub args: Vec<ExpressionASTNode>,
}

/// An expression. A number literal keeps its decimal text.
#[derive(Debug)]
pub enum ExpressionASTNode {
    FunctionCallAST(FunctionCallAST),
    StringLiteral(String),
    NumberLiteral(String),
    VariableReference(String),
}

/// The view of an expression.
pub enum ExprV {
    Call(Seq<char>, Seq<ExprV>),
    Str(Seq<char>),
    Num(Seq<char>),
    Var(Seq<char>),
}

/// The view of a statement.
pub enum StmtV {
    Let(Seq<char>),
    Assign(Seq<char>, ExprV),
    Expr(ExprV),
    If(ExprV, Seq<StmtV>, Seq<StmtV>),
    While(ExprV, Seq<StmtV>),
}

/// The view of a function.
pub struct FunctionV {
    pub name: Seq<char>,
    pub body: Seq<StmtV>,
    pub style: FunctionStyle,
}

pub open spec fn expr_view(e: &ExpressionASTNode) -> ExprV
    decreases e, 0nat,
{
    match e {
        ExpressionASTNode::FunctionCallAST(fc) => ExprV::Call(fc.function_name@, exprs_view(fc.args@)),
        ExpressionASTNode::StringLiteral(s) => ExprV::Str(s@),
        ExpressionASTNode::NumberLiteral(s) => ExprV::Num(s@),
        ExpressionASTNode::VariableReference(s) => ExprV::Var(s@),
    }
}

pub open spec fn exprs_view(es: Seq<ExpressionASTNode>) -> Seq<ExprV>
    decreases es, 1nat,
{
    Seq::new(es.len(), |i: int| if 0 <= i < es.len() { expr_view(&es[i]) } else { ExprV::Var(Seq::empty()) })
}


pub open spec fn stmt_view(s: &StatementASTNode) -> StmtV
    decreases s, 0nat,
{
    match s {
        StatementASTNode::LocalVariableAST(lv) => StmtV::Let(lv.name@),
        StatementASTNode::AssignmentAST(a) => StmtV::Assign(a.target_var_name@, expr_view(&a.value)),
        StatementASTNode::ExpressionAST(e) => StmtV::Expr(expr_view(e)),
        StatementASTNode::IfAST(i) => StmtV::If(
            expr_view(&i.condition),
            stmts_view(i.then_block@),
            stmts_view(i.else_block@),
        ),
        StatementASTNode::WhileAST(w) => StmtV::While(expr_view(&w.condition), stmts_view(w.do_block@)),
    }
}

pub open spec fn stmts_view(ss: Seq<StatementASTNode>) -> Seq<StmtV>
    decreases ss, 1nat,
{
    Seq::new(
        ss.len(),
        |i: int| if 0 <= i < ss.len() { stmt_view(&ss[i]) } else { StmtV::Let(Seq::empty()) },
    )
}

impl View for ExpressionASTNode {
    type V = ExprV;

    open spec fn view(&self) -> ExprV {
        expr_view(self)
    }
}

impl View for StatementASTNode {
    type V = StmtV;

    open spec fn view(&self) -> StmtV {
        stmt_view(self)
    }
}

impl View for FunctionAST {
    type V = FunctionV;

    open spec fn view(&self) -> FunctionV {
        FunctionV { name: self.name@, body: stmts_view(self.statements@), style: self.style }
    }
}

/// The view of a program: global variable names and functions, each name once.
pub struct ProgramV {
    pub variables: Seq<Seq<char>>,
    pub functions: Seq<FunctionV>,
}

/// No name is declared twice, among the globals or among the functions.
pub open spec fn names_unique(p: ProgramV) -> bool {
    &&& forall|i: int, j: int|
        0 <= i < j < p.variables.len() ==> p.variables[i] != p.variables[j]
    &&& forall|i: int, j: int|
        0 <= i < j < p.functions.len() ==> p.functions[i].name != p.functions[j].name
}

/// The first position at or after `i` of a function called `name`.
pub open spec fn find_function_from(fs: Seq<FunctionV>, name: Seq<char>, i: int) -> Option<int>
    decreases fs.len() - i,
{
    if i < 0 || i >= fs.len() {
        None
    } else if fs[i].name == name {
        Some(i)
    } else {
        find_function_from(fs, name, i + 1)
    }
}

/// The function called `name`, if one is declared.
pub open spec fn lookup_function(p: ProgramV, name: Seq<char>) -> Option<FunctionV> {
    match find_function_from(p.functions, name, 0) {
        Some(i) => Some(p.functions[i]),
        None => None,
    }
}

/// The program after declaring the global `name` (a second declaration changes nothing).
pub open spec fn with_variable(p: ProgramV, name: Seq<char>) -> ProgramV {
    if p.variables.contains(name) {
        p
    } else {
        ProgramV { variables: p.variables.push(name), functions: p.functions }
    }
}

/// The program after declaring `f`: it replaces a function of the same name, else it is added.
pub open spec fn with_function(p: ProgramV, f: FunctionV) -> ProgramV {
    match find_function_from(p.functions, f.name, 0) {
        Some(i) => ProgramV { variables: p.variables, functions: p.functions.update(i, f) },
        None => ProgramV { variables: p.variables, functions: p.functions.push(f) },
    }
}

/// A whole program: its global variables and its functions, each keyed by its name.
#[derive(Debug)]
pub struct ProgramAST {
    variables: Vec<GlobalVariableAST>,
    functions: Vec<FunctionAST>,
}

impl View for ProgramAST {
    type V = ProgramV;

    closed spec fn view(&self) -> ProgramV {
        ProgramV {
            variables: self.variables@.map_values(|g: GlobalVariableAST| g.name@),
            functions: self.functions@.map_values(|f: FunctionAST| f@),
        }
    }
}

proof fn lemma_find_function_from(fs: Seq<FunctionV>, name: Seq<char>, i: int)
    requires
        0 <= i,
    ensures
        find_function_from(fs, name, i) matches Some(k) ==> i <= k < fs.len() && fs[k].name == name,
        find_function_from(fs, name, i) is None ==> forall|k: int| i <= k < fs.len() ==> fs[k].name != name,
    decreases fs.len() - i,
{
    if i < fs.len() && fs[i].name != name {
        lemma_find_function_from(fs, name, i + 1);
    }
}

impl ProgramAST {
    /// An empty program.
    pub fn new() -> (r: Self)
        ensures
            r@.variables.len() == 0,
            r@.functions.len() == 0,
            names_unique(r@),
    {
        ProgramAST { variables: Vec::new(), functions: Vec::new() }
    }

    /// The global variables, in order of first declaration.
    pub fn variables(&self) -> (r: &Vec<GlobalVariableAST>)
        ensures
            r@.map_values(|g: GlobalVariableAST| g.name@) == self@.variables,
    {
        &self.variables
    }

    /// The functions, in order of first declaration.
    pub fn functions(&self) -> (r: &Vec<FunctionAST>)
        ensures
            r@.map_values(|f: FunctionAST| f@) == self@.functions,
    {
        &self.functions
    }

    /// Whether `name` is a declared global variable.
    pub fn has_variable(&self, name: &str) -> (r: bool)
        ensures
            r == self@.variables.contains(name@),
    {
        let mut i: usize = 0;
        while i < self.variables.len()
            invariant
                i <= self.variables.len(),
                forall|k: int| 0 <= k < i ==> self@.variables[k] != name@,
            decreases self.variables.len() - i,
        {
            if str_eq(self.variables[i].name.as_str(), name) {
                assert(self@.variables[i as int] == name@);
                return true;
            }
            i += 1;
        }
        false
    }

    /// The position of the function called `name`, if one is declared.
    pub fn find_function(&self, name: &str) -> (r: Option<usize>)
        ensures
            r matches Some(k) ==> find_function_from(self@.functions, name@, 0) == Some(k as int),
            r is None ==> find_function_from(self@.functions, name@, 0) is None,
            r matches Some(k) ==> k < self@.functions.len(),
    {
        let mut i: usize = 0;
        while i < self.functions.len()
            invariant
                i <= self.functions.len(),
                find_function_from(self@.functions, name@, 0)
                    == find_function_from(self@.functions, name@, i as int),
            decreases self.functions.len() - i,
        {
            assert(self@.functions[i as int] == self.functions@[i as int]@);
            if str_eq(self.functions[i].name.as_str(), name) {
                return Some(i);
            }
            i += 1;
        }
        None
    }

    /// The function at position `k`.
    pub fn function_at(&self, k: usize) -> (r: &FunctionAST)
        requires
            k < self@.functions.len(),
        ensures
            r@ == self@.functions[k as int],
    {
        &self.functions[k]
    }

    /// Declares a global variable; declaring a name again changes nothing.
    pub fn insert_variable(&mut self, v: GlobalVariableAST)
        requires
            names_unique(old(self)@),
        ensures
            final(self)@ == with_variable(old(self)@, v.name@),
            names_unique(final(self)@),
    {
        if !self.has_variable(v.name.as_str()) {
            self.variables.push(v);
            assert(self@.variables =~= old(self)@.variables.push(v.name@));
        }
    }

    /// Declares a function; it replaces an earlier function of the same name.
    pub fn insert_function(&mut self, f: FunctionAST)
        requires
            names_unique(old(self)@),
        ensures
            final(self)@ == with_function(old(self)@, f@),
            names_unique(final(self)@),
    {
        proof {
            lemma_find_function_from(self@.functions, f@.name, 0);
        }
        match self.find_function(f.name.as_str()) {
            Some(k) => {
                self.functions.remove(k);
                self.functions.insert(k, f);
                let ghost fs = old(self)@.functions;
                assert(self@.functions =~= fs.update(k as int, f@));
                assert(fs[k as int].name == f@.name);
                assert forall|i: int, j: int| 0 <= i < j < self@.functions.len() implies
                    self@.functions[i].name != self@.functions[j].name by {
                    assert(self@.functions[i].name == fs[i].name);
                    assert(self@.functions[j].name == fs[j].name);
                }
            },
            None => {
                self.functions.push(f);
                let ghost fs = old(self)@.functions;
                assert(self@.functions =~= fs.push(f@));
                assert forall|i: int, j: int| 0 <= i < j < self@.functions.len() implies
                    self@.functions[i].name != self@.functions[j].name by {
                    if j == fs.len() {
                        assert(fs[i].name != f@.name);
                    }
                }
            },
        }
    }
}

} // verus!
