//! Lowering a program to target instructions: scoped name mangling, control
//! flow lowered to jumps, the caller side of the call convention, and the
//! intrinsic table.
use vstd::prelude::*;
use crate::ast::{
    expr_view, exprs_view, lookup_function, names_unique, stmts_view, ExprV, ExpressionASTNode,
    FunctionAST, FunctionCallAST, FunctionStyle, FunctionV, LocalVariableAST, ProgramAST, ProgramV,
    StatementASTNode, StmtV,
};
use crate::mlog::{code_view, render_all, render_code, InstrV, Instruction};
use crate::text::{decimal, numbered, str_eq};

verus! {

/// The kind of argument an intrinsic expects at a position.
#[derive(Debug, Clone, Copy, PartialEq, Eq, Structural)]
pub enum ArgumentKind {
    StringLiteral,
    VariableReference,
    NumberLiteral,
}

/// Why a program could not be lowered.
#[derive(Debug)]
pub enum GenerationError {
    /// A name that is neither reserved (`@...`), in an open scope, nor a global.
    UndefinedVariable(String),
    /// A call of a name that is neither an intrinsic nor a declared function.
    UndefinedFunction(String),
    /// An intrinsic called with the wrong number of arguments.
    ArityMismatch { function: String, expected: usize, found: usize },
    /// An intrinsic argument of the wrong kind; `position` counts from 1.
    ArgumentKindMismatch { function: String, position: usize, expected_kind: ArgumentKind },
    /// A call of an `inline` function, which has no lowering.
    InlineUnsupported(String),
    /// The counter for fresh names ran out.
    CounterOverflow,
}

/// The view of a generation error.
pub enum GenErrorV {
    UndefinedVariable(Seq<char>),
    UndefinedFunction(Seq<char>),
    ArityMismatch(Seq<char>, nat, nat),
    ArgumentKindMismatch(Seq<char>, nat, ArgumentKind),
    InlineUnsupported(Seq<char>),
    CounterOverflow,
}

impl View for GenerationError {
    type V = GenErrorV;

    open spec fn view(&self) -> GenErrorV {
        match self {
            GenerationError::UndefinedVariable(n) => GenErrorV::UndefinedVariable(n@),
            GenerationError::UndefinedFunction(n) => GenErrorV::UndefinedFunction(n@),
            GenerationError::ArityMismatch { function, expected, found } =>
                GenErrorV::ArityMismatch(function@, *expected as nat, *found as nat),
            GenerationError::ArgumentKindMismatch { function, position, expected_kind } =>
                GenErrorV::ArgumentKindMismatch(function@, *position as nat, *expected_kind),
            GenerationError::InlineUnsupported(n) => GenErrorV::InlineUnsupported(n@),
            GenerationError::CounterOverflow => GenErrorV::CounterOverflow,
        }
    }
}

/// An open lexical scope: the names declared in it, and the suffix that makes them unique.
#[derive(Debug)]
pub struct VariableScope {
    pub variables: Vec<LocalVariableAST>,
    pub mangle: String,
}

/// The view of a scope.
pub struct ScopeV {
    pub names: Seq<Seq<char>>,
    pub mangle: Seq<char>,
}

impl View for VariableScope {
    type V = ScopeV;

    open spec fn view(&self) -> ScopeV {
        ScopeV {
            names: self.variables@.map_values(|v: LocalVariableAST| v.name@),
            mangle: self.mangle@,
        }
    }
}

impl VariableScope {
    /// An empty scope with the given suffix.
    pub fn new(mangle: &str) -> (r: Self)
        ensures
            r@.names == Seq::<Seq<char>>::empty(),
            r@.mangle == mangle@,
    {
        let r = VariableScope { variables: Vec::new(), mangle: String::from_str(mangle) };
        assert(r@.names =~= Seq::<Seq<char>>::empty());
        r
    }
}

/// The views of a scope stack, outermost first.
pub open spec fn scopes_view(s: Seq<VariableScope>) -> Seq<ScopeV> {
    s.map_values(|x: VariableScope| x@)
}

/// The state threaded through generation: open scopes, the fresh-name counter, and
/// the code emitted so far.
pub struct GenState {
    pub scopes: Seq<ScopeV>,
    pub uid: nat,
    pub code: Seq<InstrV>,
}

// ---------------------------------------------------------------------------
// Name resolution

/// Looks `name` up in the first `k` scopes, innermost first.
pub open spec fn resolve_upto(scopes: Seq<ScopeV>, name: Seq<char>, k: int) -> Option<Seq<char>>
    decreases k,
{
    if k <= 0 || k > scopes.len() {
        None
    } else if scopes[k - 1].names.contains(name) {
        Some(name + scopes[k - 1].mangle)
    } else {
        resolve_upto(scopes, name, k - 1)
    }
}

/// Whether `name` denotes a reserved machine name: it starts with `@` (or is empty).
pub open spec fn is_reserved(name: Seq<char>) -> bool {
    name.len() == 0 || name[0] == '@'
}

/// The physical name of `name`: reserved names pass unchanged, then the innermost
/// scope that declares it decides, then the globals; otherwise it is undefined.
pub open spec fn resolve(p: ProgramV, scopes: Seq<ScopeV>, name: Seq<char>) -> Option<Seq<char>> {
    if is_reserved(name) {
        Some(name)
    } else {
        match resolve_upto(scopes, name, scopes.len() as int) {
            Some(n) => Some(n),
            None => if p.variables.contains(name) {
                Some(name)
            } else {
                None
            },
        }
    }
}

// ---------------------------------------------------------------------------
// Intrinsics

/// The intrinsics, matched by name before user functions.
#[derive(Debug, Clone, Copy, PartialEq, Eq, Structural)]
pub enum Intrinsic {
    Add,
    Sub,
    Mul,
    Div,
    Equal,
    Radar,
    Ubind,
    UcontrolMove,
    UcontrolWithin,
}

/// The intrinsic called `name`, if any.
pub open spec fn intrinsic_of(name: Seq<char>) -> Option<Intrinsic> {
    if name == "add"@ {
        Some(Intrinsic::Add)
    } else if name == "sub"@ {
        Some(Intrinsic::Sub)
    } else if name == "mul"@ {
        Some(Intrinsic::Mul)
    } else if name == "div"@ {
        Some(Intrinsic::Div)
    } else if name == "equal"@ {
        Some(Intrinsic::Equal)
    } else if name == "radar"@ {
        Some(Intrinsic::Radar)
    } else if name == "ubind"@ {
        Some(Intrinsic::Ubind)
    } else if name == "ucontrolMove"@ {
        Some(Intrinsic::UcontrolMove)
    } else if name == "ucontrolWithin"@ {
        Some(Intrinsic::UcontrolWithin)
    } else {
        None
    }
}

/// The machine operation of a binary intrinsic.
pub open spec fn op_name(k: Intrinsic) -> Seq<char> {
    match k {
        Intrinsic::Add => "add"@,
        Intrinsic::Sub => "sub"@,
        Intrinsic::Mul => "mul"@,
        Intrinsic::Div => "div"@,
        _ => "equal"@,
    }
}

/// The intrinsics that lower to one `op` instruction on two operands.
pub open spec fn is_binary(k: Intrinsic) -> bool {
    k == Intrinsic::Add || k == Intrinsic::Sub || k == Intrinsic::Mul || k == Intrinsic::Div
        || k == Intrinsic::Equal
}

/// The argument kinds that `radar` expects, in order.
pub open spec fn radar_kinds() -> Seq<ArgumentKind> {
    seq![
        ArgumentKind::StringLiteral,
        ArgumentKind::StringLiteral,
        ArgumentKind::StringLiteral,
        ArgumentKind::StringLiteral,
        ArgumentKind::VariableReference,
        ArgumentKind::NumberLiteral,
    ]
}

/// Whether an argument is of the given kind.
pub open spec fn has_kind(e: ExprV, k: ArgumentKind) -> bool {
    match k {
        ArgumentKind::StringLiteral => e is Str,
        ArgumentKind::VariableReference => e is Var,
        ArgumentKind::NumberLiteral => e is Num,
    }
}

/// The first position, from `i` on, whose argument is not of the expected kind.
pub open spec fn first_mismatch(args: Seq<ExprV>, kinds: Seq<ArgumentKind>, i: int) -> Option<int>
    decreases kinds.len() - i,
{
    if i < 0 || i >= kinds.len() || i >= args.len() {
        None
    } else if !has_kind(args[i], kinds[i]) {
        Some(i)
    } else {
        first_mismatch(args, kinds, i + 1)
    }
}

/// How many arguments intrinsic `k` takes.
pub open spec fn arity(k: Intrinsic) -> nat {
    match k {
        Intrinsic::Radar => 6,
        Intrinsic::Ubind => 1,
        Intrinsic::UcontrolWithin => 3,
        _ => 2,
    }
}

/// Whether the call of `f` on `args` is refused before anything is emitted: no
/// such function (or an `inline` one), a wrong number of arguments for an
/// intrinsic, or an intrinsic argument of the wrong kind.
pub open spec fn call_refused(p: ProgramV, f: Seq<char>, args: Seq<ExprV>) -> bool {
    match intrinsic_of(f) {
        Some(k) => intrinsic_refused(k, args),
        None => match lookup_function(p, f) {
            None => true,
            Some(fv) => fv.style == FunctionStyle::Inline,
        },
    }
}

/// Whether intrinsic `k` refuses `args` by their number or their kinds.
pub open spec fn intrinsic_refused(k: Intrinsic, args: Seq<ExprV>) -> bool {
    ||| args.len() != arity(k)
    ||| (k == Intrinsic::Radar && first_mismatch(args, radar_kinds(), 0) is Some)
    ||| (k == Intrinsic::Ubind && args.len() == 1 && !(args[0] is Var))
}

/// The text carried by a literal or a variable reference (the name, for a call).
pub open spec fn text_of(e: ExprV) -> Seq<char> {
    match e {
        ExprV::Call(f, _) => f,
        ExprV::Str(s) => s,
        ExprV::Num(s) => s,
        ExprV::Var(s) => s,
    }
}

// ---------------------------------------------------------------------------
// State steps

/// Opens a scope with the given suffix.
pub open spec fn push_scope(st: GenState, mangle: Seq<char>) -> GenState {
    GenState { scopes: st.scopes.push(ScopeV { names: Seq::empty(), mangle }), ..st }
}

/// Closes the innermost scope.
pub open spec fn pop_scope(st: GenState) -> GenState {
    if st.scopes.len() > 0 {
        GenState { scopes: st.scopes.drop_last(), ..st }
    } else {
        st
    }
}

/// Declares `name` in the innermost scope.
pub open spec fn declare(st: GenState, name: Seq<char>) -> GenState {
    if st.scopes.len() > 0 {
        let top = st.scopes.last();
        GenState {
            scopes: st.scopes.update(
                st.scopes.len() - 1,
                ScopeV { names: top.names.push(name), mangle: top.mangle },
            ),
            ..st
        }
    } else {
        st
    }
}

/// Appends one instruction.
pub open spec fn emit(st: GenState, i: InstrV) -> GenState {
    GenState { code: st.code.push(i), ..st }
}

/// Sets the fresh-name counter.
pub open spec fn with_uid(st: GenState, uid: nat) -> GenState {
    GenState { uid, ..st }
}

/// The label that starts the loop numbered `k`.
pub open spec fn loop_begin(k: nat) -> Seq<char> {
    "while_begin_"@ + decimal(k)
}

/// The label that ends the loop numbered `k`.
pub open spec fn loop_end(k: nat) -> Seq<char> {
    "while_end_"@ + decimal(k)
}

/// The scope suffix made from counter value `n`.
pub open spec fn mangle_of(n: nat) -> Seq<char> {
    "_"@ + decimal(n)
}

/// A string literal as the target writes it.
pub open spec fn quoted(s: Seq<char>) -> Seq<char> {
    "\""@ + s + "\""@
}

/// Whether the counter can give `n` more fresh numbers.
pub open spec fn counter_room(st: GenState, n: nat) -> bool {
    st.uid + n <= usize::MAX
}

// ---------------------------------------------------------------------------
// Expressions

/// Stores the value of `e` into `target`.
pub open spec fn gen_assign(p: ProgramV, st: GenState, target: Seq<char>, e: ExprV) -> Result<
    GenState,
    GenErrorV,
>
    decreases e, 0nat, 0nat,
{
    match e {
        ExprV::Call(f, args) => gen_call(p, st, f, args, target),
        ExprV::Var(v) => match resolve(p, st.scopes, target) {
            None => Err(GenErrorV::UndefinedVariable(target)),
            Some(d) => match resolve(p, st.scopes, v) {
                None => Err(GenErrorV::UndefinedVariable(v)),
                Some(src) => Ok(emit(st, InstrV::SetVariable(d, src))),
            },
        },
        ExprV::Str(s) => match resolve(p, st.scopes, target) {
            None => Err(GenErrorV::UndefinedVariable(target)),
            Some(d) => Ok(emit(st, InstrV::SetVariable(d, quoted(s)))),
        },
        ExprV::Num(n) => match resolve(p, st.scopes, target) {
            None => Err(GenErrorV::UndefinedVariable(target)),
            Some(d) => Ok(emit(st, InstrV::SetVariable(d, n))),
        },
    }
}

/// Calls `f` on `args` and stores the result into `target`. An intrinsic runs in
/// a scope of its own. A user function is entered by storing the return address
/// (`@counter + 1`) into `ret_addr_f` and jumping to its label; its result is then
/// copied from `f_result`. The callee's return jump is not part of this lowering,
/// and one return-address variable per function means no recursion.
pub open spec fn gen_call(
    p: ProgramV,
    st: GenState,
    f: Seq<char>,
    args: Seq<ExprV>,
    target: Seq<char>,
) -> Result<GenState, GenErrorV>
    decreases args, 2nat, 0nat,
{
    match intrinsic_of(f) {
        Some(k) => if !counter_room(st, 1) {
            Err(GenErrorV::CounterOverflow)
        } else {
            let st1 = push_scope(with_uid(st, st.uid + 1), mangle_of(st.uid));
            match gen_intrinsic(p, st1, k, f, args, target) {
                Ok(st2) => Ok(pop_scope(st2)),
                Err(e) => Err(e),
            }
        },
        None => match lookup_function(p, f) {
            None => Err(GenErrorV::UndefinedFunction(f)),
            Some(fv) => if fv.style == FunctionStyle::Inline {
                Err(GenErrorV::InlineUnsupported(f))
            } else {
                match resolve(p, st.scopes, target) {
                    None => Err(GenErrorV::UndefinedVariable(target)),
                    Some(d) => Ok(
                        emit(
                            emit(
                                emit(st, InstrV::Op("add"@, "ret_addr_"@ + f, "@counter"@, "1"@)),
                                InstrV::Jump(f),
                            ),
                            InstrV::SetVariable(d, f + "_result"@),
                        ),
                    ),
                }
            },
        },
    }
}

/// Resolves the names `ns`, in order; the first undefined one is the error.
pub open spec fn resolve_all(p: ProgramV, scopes: Seq<ScopeV>, ns: Seq<Seq<char>>, i: int, acc: Seq<
    Seq<char>,
>) -> Result<Seq<Seq<char>>, GenErrorV>
    decreases ns.len() - i,
{
    if i < 0 || i >= ns.len() {
        Ok(acc)
    } else {
        match resolve(p, scopes, ns[i]) {
            None => Err(GenErrorV::UndefinedVariable(ns[i])),
            Some(r) => resolve_all(p, scopes, ns, i + 1, acc.push(r)),
        }
    }
}

/// The code of intrinsic `k`, inside the scope that the call pushed.
pub open spec fn gen_intrinsic(
    p: ProgramV,
    st: GenState,
    k: Intrinsic,
    f: Seq<char>,
    args: Seq<ExprV>,
    target: Seq<char>,
) -> Result<GenState, GenErrorV>
    decreases args, 1nat, 0nat,
{
    if is_binary(k) {
        if args.len() != 2 {
            Err(GenErrorV::ArityMismatch(f, 2, args.len()))
        } else {
            match gen_tmps(p, st, args, 0, Seq::empty()) {
                Err(e) => Err(e),
                Ok((st1, tmps)) => match resolve_all(
                    p,
                    st1.scopes,
                    seq![target, tmps[0], tmps[1]],
                    0,
                    Seq::empty(),
                ) {
                    Err(e) => Err(e),
                    Ok(r) => Ok(emit(st1, InstrV::Op(op_name(k), r[0], r[1], r[2]))),
                },
            }
        }
    } else if k == Intrinsic::Radar {
        if args.len() != 6 {
            Err(GenErrorV::ArityMismatch(f, 6, args.len()))
        } else {
            match first_mismatch(args, radar_kinds(), 0) {
                Some(i) => Err(GenErrorV::ArgumentKindMismatch(f, (i + 1) as nat, radar_kinds()[i])),
                None => match resolve_all(
                    p,
                    st.scopes,
                    seq![text_of(args[4]), target],
                    0,
                    Seq::empty(),
                ) {
                    Err(e) => Err(e),
                    Ok(r) => Ok(
                        emit(
                            st,
                            InstrV::Radar(
                                text_of(args[0]),
                                text_of(args[1]),
                                text_of(args[2]),
                                text_of(args[3]),
                                r[0],
                                text_of(args[5]),
                                r[1],
                            ),
                        ),
                    ),
                },
            }
        }
    } else if k == Intrinsic::Ubind {
        if args.len() != 1 {
            Err(GenErrorV::ArityMismatch(f, 1, args.len()))
        } else if !(args[0] is Var) {
            Err(GenErrorV::ArgumentKindMismatch(f, 1, ArgumentKind::VariableReference))
        } else {
            match resolve(p, st.scopes, text_of(args[0])) {
                None => Err(GenErrorV::UndefinedVariable(text_of(args[0]))),
                Some(o) => Ok(emit(st, InstrV::Ubind(o))),
            }
        }
    } else if k == Intrinsic::UcontrolMove {
        if args.len() != 2 {
            Err(GenErrorV::ArityMismatch(f, 2, args.len()))
        } else {
            match gen_tmps(p, st, args, 0, Seq::empty()) {
                Err(e) => Err(e),
                Ok((st1, tmps)) => match resolve_all(p, st1.scopes, tmps, 0, Seq::empty()) {
                    Err(e) => Err(e),
                    Ok(r) => Ok(emit(st1, InstrV::UcontrolMove(r[0], r[1]))),
                },
            }
        }
    } else {
        if args.len() != 3 {
            Err(GenErrorV::ArityMismatch(f, 3, args.len()))
        } else {
            match gen_tmps(p, st, args, 0, Seq::empty()) {
                Err(e) => Err(e),
                Ok((st1, tmps)) => match resolve_all(
                    p,
                    st1.scopes,
                    tmps.push(target),
                    0,
                    Seq::empty(),
                ) {
                    Err(e) => Err(e),
                    Ok(r) => Ok(emit(st1, InstrV::UcontrolWithin(r[0], r[1], r[2], r[3]))),
                },
            }
        }
    }
}

/// Materializes `args[i..]` into fresh temporaries, left to right.
pub open spec fn gen_tmps(
    p: ProgramV,
    st: GenState,
    args: Seq<ExprV>,
    i: int,
    acc: Seq<Seq<char>>,
) -> Result<(GenState, Seq<Seq<char>>), GenErrorV>
    decreases args, 0nat, args.len() - i,
{
    if i < 0 || i >= args.len() {
        Ok((st, acc))
    } else {
        match gen_tmp(p, st, args[i]) {
            Err(e) => Err(e),
            Ok((st1, n)) => gen_tmps(p, st1, args, i + 1, acc.push(n)),
        }
    }
}

/// Declares a fresh temporary in the innermost scope and stores `e` into it.
pub open spec fn gen_tmp(p: ProgramV, st: GenState, e: ExprV) -> Result<
    (GenState, Seq<char>),
    GenErrorV,
>
    decreases e, 1nat, 0nat,
{
    if !counter_room(st, 1) {
        Err(GenErrorV::CounterOverflow)
    } else {
        let name = "tmp_"@ + decimal(st.uid);
        match gen_assign(p, declare(with_uid(st, st.uid + 1), name), name, e) {
            Err(e) => Err(e),
            Ok(st1) => Ok((st1, name)),
        }
    }
}

/// A call used as a statement: its result goes to a throwaway variable in a
/// scope of its own.
pub open spec fn gen_call_statement(p: ProgramV, st: GenState, f: Seq<char>, args: Seq<ExprV>) -> Result<
    GenState,
    GenErrorV,
> {
    if !counter_room(st, 1) {
        Err(GenErrorV::CounterOverflow)
    } else {
        let st1 = declare(push_scope(with_uid(st, st.uid + 1), mangle_of(st.uid)), "blackhole"@);
        match gen_call(p, st1, f, args, "blackhole"@) {
            Err(e) => Err(e),
            Ok(st2) => Ok(pop_scope(st2)),
        }
    }
}

// ---------------------------------------------------------------------------
// Statements

/// Lowers one statement.
/// - `let n` declares `n` in the innermost scope.
/// - `t = e` stores `e` into `t`.
/// - A call used as a statement stores its result into a throwaway variable;
///   any other expression statement does nothing.
/// - `if`: the condition goes into a fresh temporary in a scope of its own, and a
///   jump to the else label is taken when it is zero. The then-block runs in a
///   fresh scope and ends with a jump past the else-block, which runs in another
///   fresh scope.
/// - `while`: one scope, opened for the whole loop, holds the condition
///   temporary and the body's declarations. At the begin label the condition is
///   stored again and tested on every iteration.
pub open spec fn gen_stmt(p: ProgramV, st: GenState, s: StmtV) -> Result<GenState, GenErrorV>
    decreases s, 1nat, 0nat,
{
    match s {
        StmtV::Let(n) => Ok(declare(st, n)),
        StmtV::Assign(t, e) => gen_assign(p, st, t, e),
        StmtV::Expr(e) => match e {
            ExprV::Call(f, args) => gen_call_statement(p, st, f, args),
            _ => Ok(st),
        },
        StmtV::If(c, th, el) => if !counter_room(st, 6) {
            Err(GenErrorV::CounterOverflow)
        } else {
            let u = st.uid;
            let else_label = "else_"@ + decimal(u);
            let cond = "cond_"@ + decimal(u + 1);
            let end_label = "endif_"@ + decimal(u + 5);
            let st1 = declare(push_scope(with_uid(st, u + 6), mangle_of(u + 2)), cond);
            match gen_assign(p, st1, cond, c) {
                Err(e) => Err(e),
                Ok(st2) => match resolve(p, st2.scopes, cond) {
                    None => Err(GenErrorV::UndefinedVariable(cond)),
                    Some(cv) => {
                        let st3 = push_scope(
                            pop_scope(emit(st2, InstrV::JumpIfZero(else_label, cv))),
                            mangle_of(u + 3),
                        );
                        match gen_block(p, st3, th, 0) {
                            Err(e) => Err(e),
                            Ok(st4) => {
                                let st5 = push_scope(
                                    emit(
                                        emit(pop_scope(st4), InstrV::Jump(end_label)),
                                        InstrV::Label(else_label),
                                    ),
                                    mangle_of(u + 4),
                                );
                                match gen_block(p, st5, el, 0) {
                                    Err(e) => Err(e),
                                    Ok(st6) => Ok(emit(pop_scope(st6), InstrV::Label(end_label))),
                                }
                            },
                        }
                    },
                },
            }
        },
        StmtV::While(c, body) => if !counter_room(st, 4) {
            Err(GenErrorV::CounterOverflow)
        } else {
            let u = st.uid;
            let begin = loop_begin(u);
            let end = loop_end(u + 1);
            let cond = "cond_"@ + decimal(u + 2);
            let st1 = emit(
                declare(push_scope(with_uid(st, u + 4), mangle_of(u + 3)), cond),
                InstrV::Label(begin),
            );
            match gen_assign(p, st1, cond, c) {
                Err(e) => Err(e),
                Ok(st2) => match resolve(p, st2.scopes, cond) {
                    None => Err(GenErrorV::UndefinedVariable(cond)),
                    Some(cv) => match gen_block(
                        p,
                        emit(st2, InstrV::JumpIfZero(end, cv)),
                        body,
                        0,
                    ) {
                        Err(e) => Err(e),
                        Ok(st4) => Ok(
                            pop_scope(emit(emit(st4, InstrV::Jump(begin)), InstrV::Label(end))),
                        ),
                    },
                },
            }
        },
    }
}

/// Lowers `ss[i..]` in order.
pub open spec fn gen_block(p: ProgramV, st: GenState, ss: Seq<StmtV>, i: int) -> Result<
    GenState,
    GenErrorV,
>
    decreases ss, 0nat, ss.len() - i,
{
    if i < 0 || i >= ss.len() {
        Ok(st)
    } else {
        match gen_stmt(p, st, ss[i]) {
            Err(e) => Err(e),
            Ok(st1) => gen_block(p, st1, ss, i + 1),
        }
    }
}

// ---------------------------------------------------------------------------
// Functions and programs

/// The body of `f`, in a fresh outermost scope: the counter after it, and its code.
pub open spec fn gen_function(p: ProgramV, f: FunctionV, uid: nat) -> Result<(nat, Seq<InstrV>), GenErrorV> {
    if uid + 1 > usize::MAX {
        Err(GenErrorV::CounterOverflow)
    } else {
        let st = GenState {
            scopes: seq![ScopeV { names: Seq::empty(), mangle: mangle_of(uid) }],
            uid: uid + 1,
            code: Seq::empty(),
        };
        match gen_block(p, st, f.body, 0) {
            Err(e) => Err(e),
            Ok(st1) => Ok((st1.uid, st1.code)),
        }
    }
}

/// The functions from position `i` on, each as its label followed by its body.
pub open spec fn gen_functions(p: ProgramV, i: int, uid: nat, acc: Seq<InstrV>) -> Result<
    (nat, Seq<InstrV>),
    GenErrorV,
>
    decreases p.functions.len() - i,
{
    if i < 0 || i >= p.functions.len() {
        Ok((uid, acc))
    } else {
        match gen_function(p, p.functions[i], uid) {
            Err(e) => Err(e),
            Ok((u, c)) => gen_functions(
                p,
                i + 1,
                u,
                acc + seq![InstrV::Label(p.functions[i].name)] + c,
            ),
        }
    }
}

/// The whole program: a call of `main` first, then every function.
pub open spec fn gen_program(p: ProgramV) -> Result<Seq<InstrV>, GenErrorV> {
    match gen_functions(p, 0, 0, Seq::empty()) {
        Err(e) => Err(e),
        Ok((u, body)) => {
            let st = GenState { scopes: Seq::empty(), uid: u, code: Seq::empty() };
            match gen_call_statement(p, st, "main"@, Seq::empty()) {
                Err(e) => Err(e),
                Ok(st1) => Ok(st1.code + body),
            }
        },
    }
}


// ---------------------------------------------------------------------------
// Executable generation

/// Whether an executable outcome `r`, with the state `after`, is the outcome `s`.
pub open spec fn agrees(r: Result<(), GenerationError>, after: GenState, s: Result<GenState, GenErrorV>) -> bool {
    match s {
        Ok(st) => r is Ok && after == st,
        Err(e) => r matches Err(x) && x@ == e,
    }
}

/// The views of a list of strings.
pub open spec fn strs_view(v: Seq<String>) -> Seq<Seq<char>> {
    v.map_values(|s: String| s@)
}

/// The view of an optional string.
pub open spec fn opt_view(r: Option<String>) -> Option<Seq<char>> {
    match r {
        Some(s) => Some(s@),
        None => None,
    }
}

struct Generator {
    scopes: Vec<VariableScope>,
    uid: usize,
    code: Vec<Instruction>,
}

impl View for Generator {
    type V = GenState;

    closed spec fn view(&self) -> GenState {
        GenState {
            scopes: scopes_view(self.scopes@),
            uid: self.uid as nat,
            code: code_view(self.code@),
        }
    }
}

impl Generator {
    fn push_scope(&mut self, mangle: &str)
        ensures
            final(self)@ == push_scope(old(self)@, mangle@),
    {
        let sc = VariableScope::new(mangle);
        self.scopes.push(sc);
        proof {
            assert(sc@ == ScopeV { names: Seq::empty(), mangle: mangle@ });
            assert(self@.scopes =~= old(self)@.scopes.push(sc@));
        }
    }

    fn pop_scope(&mut self)
        ensures
            final(self)@ == pop_scope(old(self)@),
    {
        let _ = self.scopes.pop();
        proof {
            if old(self).scopes@.len() > 0 {
                assert(self@.scopes =~= old(self)@.scopes.drop_last());
            } else {
                assert(self@.scopes =~= old(self)@.scopes);
            }
        }
    }

    fn declare(&mut self, name: String)
        ensures
            final(self)@ == declare(old(self)@, name@),
    {
        let ghost n = name@;
        match self.scopes.pop() {
            Some(mut top) => {
                let ghost top0 = top@;
                top.variables.push(LocalVariableAST { name });
                assert(top@.names =~= top0.names.push(n));
                self.scopes.push(top);
                assert(self@.scopes =~= old(self)@.scopes.update(
                    old(self)@.scopes.len() - 1,
                    ScopeV { names: top0.names.push(n), mangle: top0.mangle },
                ));
            },
            None => {},
        }
    }

    fn emit(&mut self, i: Instruction)
        ensures
            final(self)@ == emit(old(self)@, i@),
    {
        self.code.push(i);
        assert(self@.code =~= old(self)@.code.push(i@));
    }
}

fn scope_contains(sc: &VariableScope, name: &str) -> (r: bool)
    ensures
        r == sc@.names.contains(name@),
{
    let mut i: usize = 0;
    while i < sc.variables.len()
        invariant
            i <= sc.variables.len(),
            forall|k: int| 0 <= k < i ==> sc@.names[k] != name@,
        decreases sc.variables.len() - i,
    {
        if str_eq(sc.variables[i].name.as_str(), name) {
            assert(sc@.names[i as int] == name@);
            return true;
        }
        i += 1;
    }
    false
}

/// The physical name of `variable_name` under the open `local_variables`.
fn mangle_variable(variable_name: &str, program: &ProgramAST, local_variables: &Vec<VariableScope>) -> (r:
    Option<String>)
    ensures
        opt_view(r) == resolve(program@, scopes_view(local_variables@), variable_name@),
{
    let n = variable_name.unicode_len();
    if n == 0 || variable_name.get_char(0) == '@' {
        return Some(String::from_str(variable_name));
    }
    assert(!is_reserved(variable_name@));
    let ghost sv = scopes_view(local_variables@);
    let mut k = local_variables.len();
    while k > 0
        invariant
            k <= local_variables.len(),
            sv == scopes_view(local_variables@),
            !is_reserved(variable_name@),
            resolve_upto(sv, variable_name@, sv.len() as int) == resolve_upto(
                sv,
                variable_name@,
                k as int,
            ),
        decreases k,
    {
        let sc = &local_variables[k - 1];
        assert(sv[k - 1] == local_variables@[k - 1]@);
        if scope_contains(sc, variable_name) {
            let mut r = String::from_str(variable_name);
            r.append(sc.mangle.as_str());
            assert(resolve_upto(sv, variable_name@, k as int) == Some(variable_name@ + sc@.mangle));
            return Some(r);
        }
        k -= 1;
    }
    if program.has_variable(variable_name) {
        Some(String::from_str(variable_name))
    } else {
        None
    }
}

/// Resolves each of `names`, in order.
fn mangle_all(names: &Vec<String>, program: &ProgramAST, local_variables: &Vec<VariableScope>) -> (r:
    Result<Vec<String>, GenerationError>)
    ensures
        match resolve_all(
            program@,
            scopes_view(local_variables@),
            strs_view(names@),
            0,
            Seq::empty(),
        ) {
            Ok(rs) => r matches Ok(v) && strs_view(v@) == rs,
            Err(e) => r matches Err(x) && x@ == e,
        },
        r matches Ok(v) ==> v@.len() == names@.len(),
{
    let ghost sv = scopes_view(local_variables@);
    let ghost nv = strs_view(names@);
    let mut out: Vec<String> = Vec::new();
    assert(strs_view(out@) =~= Seq::<Seq<char>>::empty());
    let mut i: usize = 0;
    while i < names.len()
        invariant
            i <= names.len(),
            out@.len() == i,
            sv == scopes_view(local_variables@),
            nv == strs_view(names@),
            resolve_all(program@, sv, nv, 0, Seq::empty()) == resolve_all(
                program@,
                sv,
                nv,
                i as int,
                strs_view(out@),
            ),
        decreases names.len() - i,
    {
        assert(nv[i as int] == names@[i as int]@);
        match mangle_variable(names[i].as_str(), program, local_variables) {
            Some(m) => {
                let ghost before = out@;
                out.push(m);
                assert(strs_view(out@) =~= strs_view(before).push(m@));
            },
            None => {
                return Err(GenerationError::UndefinedVariable(names[i].clone()));
            },
        }
        i += 1;
    }
    Ok(out)
}

fn intrinsic_named(name: &str) -> (r: Option<Intrinsic>)
    ensures
        r == intrinsic_of(name@),
{
    if str_eq(name, "add") {
        Some(Intrinsic::Add)
    } else if str_eq(name, "sub") {
        Some(Intrinsic::Sub)
    } else if str_eq(name, "mul") {
        Some(Intrinsic::Mul)
    } else if str_eq(name, "div") {
        Some(Intrinsic::Div)
    } else if str_eq(name, "equal") {
        Some(Intrinsic::Equal)
    } else if str_eq(name, "radar") {
        Some(Intrinsic::Radar)
    } else if str_eq(name, "ubind") {
        Some(Intrinsic::Ubind)
    } else if str_eq(name, "ucontrolMove") {
        Some(Intrinsic::UcontrolMove)
    } else if str_eq(name, "ucontrolWithin") {
        Some(Intrinsic::UcontrolWithin)
    } else {
        None
    }
}

fn op_text(k: Intrinsic) -> (r: String)
    ensures
        r@ == op_name(k),
{
    match k {
        Intrinsic::Add => String::from_str("add"),
        Intrinsic::Sub => String::from_str("sub"),
        Intrinsic::Mul => String::from_str("mul"),
        Intrinsic::Div => String::from_str("div"),
        _ => String::from_str("equal"),
    }
}

fn radar_kind(i: usize) -> (r: ArgumentKind)
    requires
        i < 6,
    ensures
        r == radar_kinds()[i as int],
{
    if i < 4 {
        ArgumentKind::StringLiteral
    } else if i == 4 {
        ArgumentKind::VariableReference
    } else {
        ArgumentKind::NumberLiteral
    }
}

fn kind_ok(e: &ExpressionASTNode, k: ArgumentKind) -> (r: bool)
    ensures
        r == has_kind(e@, k),
{
    match k {
        ArgumentKind::StringLiteral => matches!(e, ExpressionASTNode::StringLiteral(_)),
        ArgumentKind::VariableReference => matches!(e, ExpressionASTNode::VariableReference(_)),
        ArgumentKind::NumberLiteral => matches!(e, ExpressionASTNode::NumberLiteral(_)),
    }
}

fn text_of_expr(e: &ExpressionASTNode) -> (r: String)
    ensures
        r@ == text_of(e@),
{
    match e {
        ExpressionASTNode::FunctionCallAST(fc) => fc.function_name.clone(),
        ExpressionASTNode::StringLiteral(s) => s.clone(),
        ExpressionASTNode::NumberLiteral(s) => s.clone(),
        ExpressionASTNode::VariableReference(s) => s.clone(),
    }
}

fn joined(a: &str, b: &str) -> (r: String)
    ensures
        r@ == a@ + b@,
{
    let mut r = String::from_str(a);
    r.append(b);
    r
}

/// Stores the value of `value` into `target`.
fn generate_assignment(
    target: &str,
    value: &ExpressionASTNode,
    program: &ProgramAST,
    g: &mut Generator,
) -> (r: Result<(), GenerationError>)
    ensures
        agrees(r, final(g)@, gen_assign(program@, old(g)@, target@, value@)),
        !(value@ is Call) && resolve(program@, old(g)@.scopes, target@) is None ==> r is Err
            && final(g)@.code == old(g)@.code,
        value@ matches ExprV::Call(f, args) && call_refused(program@, f, args) ==> r is Err
            && final(g)@.code == old(g)@.code,
    decreases value, 0nat, 0nat,
{
    match value {
        ExpressionASTNode::FunctionCallAST(fc) => fc.generate(program, g, target),
        ExpressionASTNode::VariableReference(v) => {
            let d = match mangle_variable(target, program, &g.scopes) {
                Some(d) => d,
                None => return Err(GenerationError::UndefinedVariable(String::from_str(target))),
            };
            let src = match mangle_variable(v.as_str(), program, &g.scopes) {
                Some(s) => s,
                None => return Err(GenerationError::UndefinedVariable(v.clone())),
            };
            g.emit(Instruction::SetVariable { dst: d, src });
            Ok(())
        },
        ExpressionASTNode::StringLiteral(s) => {
            let d = match mangle_variable(target, program, &g.scopes) {
                Some(d) => d,
                None => return Err(GenerationError::UndefinedVariable(String::from_str(target))),
            };
            let mut src = String::from_str("\"");
            src.append(s.as_str());
            src.append("\"");
            g.emit(Instruction::SetVariable { dst: d, src });
            Ok(())
        },
        ExpressionASTNode::NumberLiteral(n) => {
            let d = match mangle_variable(target, program, &g.scopes) {
                Some(d) => d,
                None => return Err(GenerationError::UndefinedVariable(String::from_str(target))),
            };
            g.emit(Instruction::SetVariable { dst: d, src: n.clone() });
            Ok(())
        },
    }
}

/// Declares a fresh temporary in the innermost scope and stores `value` into it.
fn make_tmp_variable(value: &ExpressionASTNode, program: &ProgramAST, g: &mut Generator) -> (r:
    Result<String, GenerationError>)
    ensures
        match gen_tmp(program@, old(g)@, value@) {
            Ok((st, n)) => r matches Ok(s) && final(g)@ == st && s@ == n,
            Err(e) => r matches Err(x) && x@ == e,
        },
    decreases value, 1nat, 0nat,
{
    if g.uid == usize::MAX {
        return Err(GenerationError::CounterOverflow);
    }
    let tmp_name = numbered("tmp_", g.uid);
    g.uid = g.uid + 1;
    g.declare(tmp_name.clone());
    match generate_assignment(tmp_name.as_str(), value, program, g) {
        Ok(()) => Ok(tmp_name),
        Err(e) => Err(e),
    }
}

/// Materializes each of `values` into a fresh temporary, left to right.
fn make_tmp_variables(values: &Vec<ExpressionASTNode>, program: &ProgramAST, g: &mut Generator) -> (r:
    Result<Vec<String>, GenerationError>)
    ensures
        match gen_tmps(program@, old(g)@, exprs_view(values@), 0, Seq::empty()) {
            Ok((st, ns)) => r matches Ok(v) && final(g)@ == st && strs_view(v@) == ns,
            Err(e) => r matches Err(x) && x@ == e,
        },
        r matches Ok(v) ==> v@.len() == values@.len(),
    decreases values, 2nat, 0nat,
{
    let ghost av = exprs_view(values@);
    let mut out: Vec<String> = Vec::new();
    assert(strs_view(out@) =~= Seq::<Seq<char>>::empty());
    let mut i: usize = 0;
    while i < values.len()
        invariant
            i <= values.len(),
            out@.len() == i,
            av == exprs_view(values@),
            gen_tmps(program@, old(g)@, av, 0, Seq::empty()) == gen_tmps(
                program@,
                g@,
                av,
                i as int,
                strs_view(out@),
            ),
        decreases values.len() - i,
    {
        assert(av[i as int] == values@[i as int]@);
        match make_tmp_variable(&values[i], program, g) {
            Ok(n) => {
                let ghost before = out@;
                out.push(n);
                assert(strs_view(out@) =~= strs_view(before).push(n@));
            },
            Err(e) => {
                return Err(e);
            },
        }
        i += 1;
    }
    Ok(out)
}

/// The code of intrinsic `k` called as `fc`, inside the scope that the call pushed.
fn generate_intrinsic(
    fc: &FunctionCallAST,
    k: Intrinsic,
    program: &ProgramAST,
    g: &mut Generator,
    target: &str,
) -> (r: Result<(), GenerationError>)
    ensures
        agrees(
            r,
            final(g)@,
            gen_intrinsic(program@, old(g)@, k, fc.function_name@, exprs_view(fc.args@), target@),
        ),
        intrinsic_refused(k, exprs_view(fc.args@)) ==> r is Err && final(g)@.code == old(g)@.code,
    decreases fc, 1nat, 0nat,
{
    let args = &fc.args;
    let n = args.len();
    let ghost av = exprs_view(args@);
    match k {
        Intrinsic::Add | Intrinsic::Sub | Intrinsic::Mul | Intrinsic::Div | Intrinsic::Equal => {
            if n != 2 {
                return Err(
                    GenerationError::ArityMismatch {
                        function: fc.function_name.clone(),
                        expected: 2,
                        found: n,
                    },
                );
            }
            let tmps = match make_tmp_variables(args, program, g) {
                Ok(t) => t,
                Err(e) => return Err(e),
            };
            let names = vec![String::from_str(target), tmps[0].clone(), tmps[1].clone()];
            assert(strs_view(names@) =~= seq![target@, strs_view(tmps@)[0], strs_view(tmps@)[1]]);
            let r = match mangle_all(&names, program, &g.scopes) {
                Ok(r) => r,
                Err(e) => return Err(e),
            };
            g.emit(
                Instruction::Op {
                    op: op_text(k),
                    dst: r[0].clone(),
                    a: r[1].clone(),
                    b: r[2].clone(),
                },
            );
            Ok(())
        },
        Intrinsic::Radar => {
            if n != 6 {
                return Err(
                    GenerationError::ArityMismatch {
                        function: fc.function_name.clone(),
                        expected: 6,
                        found: n,
                    },
                );
            }
            let mut i: usize = 0;
            while i < 6
                invariant
                    i <= 6,
                    k == Intrinsic::Radar,
                    fc.args@.len() == 6,
                    args@ == fc.args@,
                    av == exprs_view(fc.args@),
                    first_mismatch(av, radar_kinds(), 0) == first_mismatch(
                        av,
                        radar_kinds(),
                        i as int,
                    ),
                decreases 6 - i,
            {
                assert(av[i as int] == args@[i as int]@);
                if !kind_ok(&args[i], radar_kind(i)) {
                    return Err(
                        GenerationError::ArgumentKindMismatch {
                            function: fc.function_name.clone(),
                            position: i + 1,
                            expected_kind: radar_kind(i),
                        },
                    );
                }
                i += 1;
            }
            assert(av[0] == args@[0]@ && av[1] == args@[1]@ && av[2] == args@[2]@);
            assert(av[3] == args@[3]@ && av[4] == args@[4]@ && av[5] == args@[5]@);
            let names = vec![text_of_expr(&args[4]), String::from_str(target)];
            assert(strs_view(names@) =~= seq![text_of(av[4]), target@]);
            let r = match mangle_all(&names, program, &g.scopes) {
                Ok(r) => r,
                Err(e) => return Err(e),
            };
            g.emit(
                Instruction::Radar {
                    filter1: text_of_expr(&args[0]),
                    filter2: text_of_expr(&args[1]),
                    filter3: text_of_expr(&args[2]),
                    sort: text_of_expr(&args[3]),
                    object: r[0].clone(),
                    order: text_of_expr(&args[5]),
                    output: r[1].clone(),
                },
            );
            Ok(())
        },
        Intrinsic::Ubind => {
            if n != 1 {
                return Err(
                    GenerationError::ArityMismatch {
                        function: fc.function_name.clone(),
                        expected: 1,
                        found: n,
                    },
                );
            }
            assert(av[0] == args@[0]@);
            if !kind_ok(&args[0], ArgumentKind::VariableReference) {
                return Err(
                    GenerationError::ArgumentKindMismatch {
                        function: fc.function_name.clone(),
                        position: 1,
                        expected_kind: ArgumentKind::VariableReference,
                    },
                );
            }
            let obj = text_of_expr(&args[0]);
            let o = match mangle_variable(obj.as_str(), program, &g.scopes) {
                Some(o) => o,
                None => return Err(GenerationError::UndefinedVariable(obj)),
            };
            g.emit(Instruction::Ubind { object: o });
            Ok(())
        },
        Intrinsic::UcontrolMove => {
            if n != 2 {
                return Err(
                    GenerationError::ArityMismatch {
                        function: fc.function_name.clone(),
                        expected: 2,
                        found: n,
                    },
                );
            }
            let tmps = match make_tmp_variables(args, program, g) {
                Ok(t) => t,
                Err(e) => return Err(e),
            };
            let r = match mangle_all(&tmps, program, &g.scopes) {
                Ok(r) => r,
                Err(e) => return Err(e),
            };
            g.emit(Instruction::UcontrolMove { x: r[0].clone(), y: r[1].clone() });
            Ok(())
        },
        Intrinsic::UcontrolWithin => {
            if n != 3 {
                return Err(
                    GenerationError::ArityMismatch {
                        function: fc.function_name.clone(),
                        expected: 3,
                        found: n,
                    },
                );
            }
            let mut names = match make_tmp_variables(args, program, g) {
                Ok(t) => t,
                Err(e) => return Err(e),
            };
            let ghost tv = strs_view(names@);
            names.push(String::from_str(target));
            assert(strs_view(names@) =~= tv.push(target@));
            let r = match mangle_all(&names, program, &g.scopes) {
                Ok(r) => r,
                Err(e) => return Err(e),
            };
            g.emit(
                Instruction::UcontrolWithin {
                    x: r[0].clone(),
                    y: r[1].clone(),
                    radius: r[2].clone(),
                    result: r[3].clone(),
                },
            );
            Ok(())
        },
    }
}

impl FunctionCallAST {
    /// Lowers this call, storing its result into `target`.
    fn generate(&self, program: &ProgramAST, g: &mut Generator, target: &str) -> (r: Result<
        (),
        GenerationError,
    >)
        ensures
            agrees(
                r,
                final(g)@,
                gen_call(program@, old(g)@, self.function_name@, exprs_view(self.args@), target@),
            ),
            call_refused(program@, self.function_name@, exprs_view(self.args@)) ==> r is Err
                && final(g)@.code == old(g)@.code,
        decreases self, 2nat, 0nat,
    {
        let name = self.function_name.as_str();
        match intrinsic_named(name) {
            Some(k) => {
                if g.uid == usize::MAX {
                    return Err(GenerationError::CounterOverflow);
                }
                let local_mangle = numbered("_", g.uid);
                g.uid = g.uid + 1;
                g.push_scope(local_mangle.as_str());
                match generate_intrinsic(self, k, program, g, target) {
                    Ok(()) => {
                        g.pop_scope();
                        Ok(())
                    },
                    Err(e) => Err(e),
                }
            },
            None => match program.find_function(name) {
                None => Err(GenerationError::UndefinedFunction(self.function_name.clone())),
                Some(idx) => {
                    let f = program.function_at(idx);
                    if f.style == FunctionStyle::Inline {
                        return Err(GenerationError::InlineUnsupported(self.function_name.clone()));
                    }
                    let d = match mangle_variable(target, program, &g.scopes) {
                        Some(d) => d,
                        None => return Err(
                            GenerationError::UndefinedVariable(String::from_str(target)),
                        ),
                    };
                    g.emit(
                        Instruction::Op {
                            op: String::from_str("add"),
                            dst: joined("ret_addr_", name),
                            a: String::from_str("@counter"),
                            b: String::from_str("1"),
                        },
                    );
                    g.emit(Instruction::Jump { label: self.function_name.clone() });
                    g.emit(Instruction::SetVariable { dst: d, src: joined(name, "_result") });
                    Ok(())
                },
            },
        }
    }
}

/// Lowers a call used as a statement.
fn generate_call_statement(fc: &FunctionCallAST, program: &ProgramAST, g: &mut Generator) -> (r: Result<
    (),
    GenerationError,
>)
    ensures
        agrees(
            r,
            final(g)@,
            gen_call_statement(program@, old(g)@, fc.function_name@, exprs_view(fc.args@)),
        ),
        call_refused(program@, fc.function_name@, exprs_view(fc.args@)) ==> r is Err
            && final(g)@.code == old(g)@.code,
{
    if g.uid == usize::MAX {
        return Err(GenerationError::CounterOverflow);
    }
    let fc_mangle = numbered("_", g.uid);
    g.uid = g.uid + 1;
    g.push_scope(fc_mangle.as_str());
    g.declare(String::from_str("blackhole"));
    match fc.generate(program, g, "blackhole") {
        Ok(()) => {
            g.pop_scope();
            Ok(())
        },
        Err(e) => Err(e),
    }
}

impl StatementASTNode {
    /// Lowers this statement.
    fn generate(&self, program: &ProgramAST, g: &mut Generator) -> (r: Result<(), GenerationError>)
        ensures
            agrees(r, final(g)@, gen_stmt(program@, old(g)@, self@)),
        decreases self, 1nat, 0nat,
    {
        match self {
            StatementASTNode::LocalVariableAST(lv) => {
                g.declare(lv.name.clone());
                Ok(())
            },
            StatementASTNode::AssignmentAST(a) => generate_assignment(
                a.target_var_name.as_str(),
                &a.value,
                program,
                g,
            ),
            StatementASTNode::ExpressionAST(e) => match e {
                ExpressionASTNode::FunctionCallAST(fc) => generate_call_statement(fc, program, g),
                _ => Ok(()),
            },
            StatementASTNode::IfAST(ifs) => {
                if g.uid > usize::MAX - 6 {
                    return Err(GenerationError::CounterOverflow);
                }
                let u = g.uid;
                let else_label = numbered("else_", u);
                let cond_var = numbered("cond_", u + 1);
                let cond_mangle = numbered("_", u + 2);
                let then_mangle = numbered("_", u + 3);
                let else_mangle = numbered("_", u + 4);
                let end_label = numbered("endif_", u + 5);
                g.uid = u + 6;
                g.push_scope(cond_mangle.as_str());
                g.declare(cond_var.clone());
                match generate_assignment(cond_var.as_str(), &ifs.condition, program, g) {
                    Ok(()) => {},
                    Err(e) => return Err(e),
                }
                let cv = match mangle_variable(cond_var.as_str(), program, &g.scopes) {
                    Some(cv) => cv,
                    None => return Err(GenerationError::UndefinedVariable(cond_var)),
                };
                g.emit(Instruction::JumpIfZero { label: else_label.clone(), cond: cv });
                g.pop_scope();
                g.push_scope(then_mangle.as_str());
                match generate_block(&ifs.then_block, program, g) {
                    Ok(()) => {},
                    Err(e) => return Err(e),
                }
                g.pop_scope();
                g.emit(Instruction::Jump { label: end_label.clone() });
                g.emit(Instruction::Label { name: else_label });
                g.push_scope(else_mangle.as_str());
                match generate_block(&ifs.else_block, program, g) {
                    Ok(()) => {},
                    Err(e) => return Err(e),
                }
                g.pop_scope();
                g.emit(Instruction::Label { name: end_label });
                Ok(())
            },
            StatementASTNode::WhileAST(w) => {
                if g.uid > usize::MAX - 4 {
                    return Err(GenerationError::CounterOverflow);
                }
                let u = g.uid;
                let begin_label = numbered("while_begin_", u);
                let end_label = numbered("while_end_", u + 1);
                let cond_var = numbered("cond_", u + 2);
                let while_mangle = numbered("_", u + 3);
                g.uid = u + 4;
                g.push_scope(while_mangle.as_str());
                g.declare(cond_var.clone());
                g.emit(Instruction::Label { name: begin_label.clone() });
                match generate_assignment(cond_var.as_str(), &w.condition, program, g) {
                    Ok(()) => {},
                    Err(e) => return Err(e),
                }
                let cv = match mangle_variable(cond_var.as_str(), program, &g.scopes) {
                    Some(cv) => cv,
                    None => return Err(GenerationError::UndefinedVariable(cond_var)),
                };
                g.emit(Instruction::JumpIfZero { label: end_label.clone(), cond: cv });
                match generate_block(&w.do_block, program, g) {
                    Ok(()) => {},
                    Err(e) => return Err(e),
                }
                g.emit(Instruction::Jump { label: begin_label });
                g.emit(Instruction::Label { name: end_label });
                g.pop_scope();
                Ok(())
            },
        }
    }
}

/// Lowers `stmts` in order.
fn generate_block(stmts: &Vec<StatementASTNode>, program: &ProgramAST, g: &mut Generator) -> (r: Result<
    (),
    GenerationError,
>)
    ensures
        agrees(r, final(g)@, gen_block(program@, old(g)@, stmts_view(stmts@), 0)),
    decreases stmts, 0nat, 0nat,
{
    let ghost sv = stmts_view(stmts@);
    let mut i: usize = 0;
    while i < stmts.len()
        invariant
            i <= stmts.len(),
            sv == stmts_view(stmts@),
            gen_block(program@, old(g)@, sv, 0) == gen_block(program@, g@, sv, i as int),
        decreases stmts.len() - i,
    {
        assert(sv[i as int] == stmts@[i as int]@);
        match stmts[i].generate(program, g) {
            Ok(()) => {},
            Err(e) => return Err(e),
        }
        i += 1;
    }
    Ok(())
}

impl FunctionAST {
    /// The code of this function's body, in a fresh outermost scope; `uid` is the
    /// fresh-name counter, carried from function to function.
    pub fn generate(&self, program: &ProgramAST, uid: &mut usize) -> (r: Result<
        Vec<Instruction>,
        GenerationError,
    >)
        ensures
            match gen_function(program@, self@, *old(uid) as nat) {
                Ok((u, c)) => r matches Ok(v) && *final(uid) as nat == u && code_view(v@) == c,
                Err(e) => r matches Err(x) && x@ == e,
            },
    {
        if *uid == usize::MAX {
            return Err(GenerationError::CounterOverflow);
        }
        let local_mangle = numbered("_", *uid);
        let mut g = Generator { scopes: Vec::new(), uid: *uid + 1, code: Vec::new() };
        g.push_scope(local_mangle.as_str());
        assert(g@.scopes =~= seq![ScopeV { names: Seq::empty(), mangle: local_mangle@ }]);
        assert(g@.code =~= Seq::<InstrV>::empty());
        match generate_block(&self.statements, program, &mut g) {
            Ok(()) => {},
            Err(e) => return Err(e),
        }
        *uid = g.uid;
        Ok(g.code)
    }
}

impl ProgramAST {
    /// The text of the whole program: a call of `main` first, then each function as
    /// its label followed by its body.
    pub fn generate(&self) -> (r: Result<String, GenerationError>)
        ensures
            match gen_program(self@) {
                Ok(c) => r matches Ok(s) && s@ == render_all(c),
                Err(e) => r matches Err(x) && x@ == e,
            },
    {
        match self.generate_code() {
            Ok(code) => Ok(render_code(&code)),
            Err(e) => Err(e),
        }
    }

    /// The instructions of the whole program, as `generate` renders them.
    pub fn generate_code(&self) -> (r: Result<Vec<Instruction>, GenerationError>)
        ensures
            match gen_program(self@) {
                Ok(c) => r matches Ok(v) && code_view(v@) == c,
                Err(e) => r matches Err(x) && x@ == e,
            },
    {
        let functions = self.functions();
        let ghost fv = self@.functions;
        let mut uid: usize = 0;
        let mut body: Vec<Instruction> = Vec::new();
        let mut i: usize = 0;
        assert(code_view(body@) =~= Seq::<InstrV>::empty());
        while i < functions.len()
            invariant
                i <= functions.len(),
                fv == self@.functions,
                functions@.map_values(|f: FunctionAST| f@) == fv,
                gen_functions(self@, 0, 0, Seq::empty()) == gen_functions(
                    self@,
                    i as int,
                    uid as nat,
                    code_view(body@),
                ),
            decreases functions.len() - i,
        {
            let f = &functions[i];
            assert(f@ == fv[i as int]);
            let mut code = match f.generate(self, &mut uid) {
                Ok(c) => c,
                Err(e) => return Err(e),
            };
            let ghost before = code_view(body@);
            let ghost cv = code_view(code@);
            body.push(Instruction::Label { name: f.name.clone() });
            body.append(&mut code);
            assert(code_view(body@) =~= before + seq![InstrV::Label(fv[i as int].name)] + cv);
            i += 1;
        }
        let main_call = FunctionCallAST { function_name: String::from_str("main"), args: Vec::new() };
        assert(exprs_view(main_call.args@) =~= Seq::<ExprV>::empty());
        let mut g = Generator { scopes: Vec::new(), uid, code: Vec::new() };
        assert(g@.scopes =~= Seq::<ScopeV>::empty());
        assert(g@.code =~= Seq::<InstrV>::empty());
        match generate_call_statement(&main_call, self, &mut g) {
            Ok(()) => {},
            Err(e) => return Err(e),
        }
        let mut out = g.code;
        let ghost main_code = code_view(out@);
        let ghost body_code = code_view(body@);
        out.append(&mut body);
        assert(code_view(out@) =~= main_code + body_code);
        Ok(out)
    }
}

} // verus!
