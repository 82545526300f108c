//! Recursive-descent parsing with backtracking: each parser takes the tokens and
//! a cursor, consumes tokens only on success and leaves the cursor where it was
//! on failure.
use vstd::prelude::*;
use crate::ast::{
    exprs_view, names_unique, stmts_view, with_function, with_variable, AssignmentAST, ExprV,
    ExpressionASTNode, FunctionAST, FunctionCallAST, FunctionStyle, FunctionV, GlobalVariableAST,
    IfAST, LocalVariableAST, ProgramAST, ProgramV, StatementASTNode, StmtV, WhileAST,
};
use crate::generator::opt_view;
use crate::tokenizer::{toks_view, Keyword, TokV, Token};

verus! {

// ---------------------------------------------------------------------------
// The grammar, as functions from tokens and a position to what is parsed there
// and the position after it, or to the message that explains the failure. A
// successful parse always ends after its start and within the tokens (the
// executable parsers prove it); where a definition tests an end position against
// its start or the length, that test only makes its termination evident.

/// The outcome of parsing a `T`: the value and the position after it, or a message.
pub type Parsed<T> = Result<(T, int), Seq<char>>;

pub open spec fn is_kw(t: Seq<TokV>, p: int, k: Keyword) -> bool {
    0 <= p < t.len() && t[p] == TokV::Kw(k)
}

pub open spec fn ident_at(t: Seq<TokV>, p: int) -> Option<Seq<char>> {
    if 0 <= p < t.len() {
        match t[p] {
            TokV::Ident(n) => Some(n),
            _ => None,
        }
    } else {
        None
    }
}

/// `'let' IDENT`, for globals and locals alike.
pub open spec fn p_let(t: Seq<TokV>, p: int) -> Parsed<Seq<char>> {
    if is_kw(t, p, Keyword::Let) {
        match ident_at(t, p + 1) {
            Some(n) => Ok((n, p + 2)),
            None => Err("Invalid variable declaration"@),
        }
    } else {
        Err("Invalid variable declaration"@)
    }
}

/// `function_call | string_lit | number_lit | variable_ref`, in that order. When
/// none matches, the message joins the call's and the literal's.
pub open spec fn p_expr(t: Seq<TokV>, p: int) -> Parsed<ExprV>
    decreases t.len() - p, 1nat,
{
    if p < 0 || p >= t.len() {
        Err("Invalid expression: no tokens left"@)
    } else {
        match p_call(t, p) {
            Ok((fc, q)) => Ok((ExprV::Call(fc.0, fc.1), q)),
            Err(ce) => match t[p] {
                TokV::Str(s) => Ok((ExprV::Str(s), p + 1)),
                TokV::Num(n) => Ok((ExprV::Num(n), p + 1)),
                TokV::Ident(n) => Ok((ExprV::Var(n), p + 1)),
                TokV::Kw(_) => Err(
                    "Invalid expression: "@ + ce + "; "@ + "not a literal or a variable reference"@,
                ),
            },
        }
    }
}

/// `IDENT '(' (expression (',' expression)*)? ')'`.
pub open spec fn p_call(t: Seq<TokV>, p: int) -> Parsed<(Seq<char>, Seq<ExprV>)>
    decreases t.len() - p, 0nat,
{
    if p < 0 || p + 1 >= t.len() {
        Err("Invalid function call"@)
    } else {
        match ident_at(t, p) {
            Some(f) => if t[p + 1] != TokV::Kw(Keyword::LeftParenthese) {
                Err("Invalid function call"@)
            } else if is_kw(t, p + 2, Keyword::RightParenthese) {
                Ok(((f, Seq::empty()), p + 3))
            } else {
                match p_args(t, p + 2, Seq::empty()) {
                    Ok((args, q)) => Ok(((f, args), q)),
                    Err(m) => Err(m),
                }
            },
            None => Err("Invalid function call"@),
        }
    }
}

/// `expression (',' expression)* ')'` from position `r`, after the arguments `acc`
/// already read.
pub open spec fn p_args(t: Seq<TokV>, r: int, acc: Seq<ExprV>) -> Parsed<Seq<ExprV>>
    decreases t.len() - r, 2nat,
{
    if r < 0 || r >= t.len() {
        Err("Unterminated argument list"@)
    } else {
        match p_expr(t, r) {
            Err(m) => Err(m),
            Ok((e, r1)) => if r1 <= r || r1 >= t.len() {
                Err("Unterminated argument list"@)
            } else if t[r1] == TokV::Kw(Keyword::RightParenthese) {
                Ok((acc.push(e), r1 + 1))
            } else if t[r1] == TokV::Kw(Keyword::Comma) {
                p_args(t, r1 + 1, acc.push(e))
            } else {
                Err("Expected \",\" or \")\" after an argument"@)
            },
        }
    }
}

/// `IDENT '=' expression`.
pub open spec fn p_assign(t: Seq<TokV>, p: int) -> Parsed<(Seq<char>, ExprV)> {
    match ident_at(t, p) {
        Some(x) => if is_kw(t, p + 1, Keyword::Assign) {
            match p_expr(t, p + 2) {
                Ok((e, q)) => Ok(((x, e), q)),
                Err(m) => Err(m),
            }
        } else {
            Err("Invalid assignment"@)
        },
        None => Err("Invalid assignment"@),
    }
}

/// Whether the tokens at `p` are an identifier followed by `=`: then only an
/// assignment can start there.
pub open spec fn starts_assignment(t: Seq<TokV>, p: int) -> bool {
    ident_at(t, p) is Some && is_kw(t, p + 1, Keyword::Assign)
}

/// `local_var | assignment | expr_stmt | if_stmt | while_stmt`, in that order. An
/// identifier followed by `=` commits to the assignment. When no alternative
/// matches, the message joins what each one reported.
pub open spec fn p_stmt(t: Seq<TokV>, p: int) -> Parsed<StmtV>
    decreases t.len() - p, 1nat,
{
    if p < 0 || p >= t.len() {
        Err("Invalid statement: no tokens left"@)
    } else {
        match p_let(t, p) {
            Ok((n, q)) => Ok((StmtV::Let(n), q)),
            Err(m1) => match p_assign(t, p) {
                Ok((a, q)) => Ok((StmtV::Assign(a.0, a.1), q)),
                Err(m2) => if starts_assignment(t, p) {
                    Err("Invalid statement: "@ + m2)
                } else {
                    match p_expr(t, p) {
                        Ok((e, q)) => Ok((StmtV::Expr(e), q)),
                        Err(m3) => match p_if(t, p) {
                            Ok((i, q)) => Ok((StmtV::If(i.0, i.1, i.2), q)),
                            Err(m4) => match p_while(t, p) {
                                Ok((w, q)) => Ok((StmtV::While(w.0, w.1), q)),
                                Err(m5) => Err(
                                    "Invalid statement: "@ + m1 + "; "@ + m2 + "; "@ + m3 + "; "@
                                        + m4 + "; "@ + m5,
                                ),
                            },
                        },
                    }
                },
            },
        }
    }
}

/// `'if' expression block ('else' block)?`.
pub open spec fn p_if(t: Seq<TokV>, p: int) -> Parsed<(ExprV, Seq<StmtV>, Seq<StmtV>)>
    decreases t.len() - p, 0nat,
{
    if !is_kw(t, p, Keyword::If) {
        Err("Invalid if statement"@)
    } else {
        match p_expr(t, p + 1) {
            Err(m) => Err(m),
            Ok((c, r1)) => if r1 <= p || r1 > t.len() {
                Err("Invalid if statement"@)
            } else {
                match p_block(t, r1) {
                    Err(m) => Err(m),
                    Ok((th, r2)) => if r2 <= p || r2 > t.len() {
                        Err("Invalid if statement"@)
                    } else if is_kw(t, r2, Keyword::Else) {
                        match p_block(t, r2 + 1) {
                            Ok((el, r3)) => Ok(((c, th, el), r3)),
                            Err(m) => Err(m),
                        }
                    } else {
                        Ok(((c, th, Seq::empty()), r2))
                    },
                }
            },
        }
    }
}

/// `'while' expression block`.
pub open spec fn p_while(t: Seq<TokV>, p: int) -> Parsed<(ExprV, Seq<StmtV>)>
    decreases t.len() - p, 0nat,
{
    if !is_kw(t, p, Keyword::While) {
        Err("Invalid while statement"@)
    } else {
        match p_expr(t, p + 1) {
            Err(m) => Err(m),
            Ok((c, r1)) => if r1 <= p || r1 > t.len() {
                Err("Invalid while statement"@)
            } else {
                match p_block(t, r1) {
                    Ok((b, r2)) => Ok(((c, b), r2)),
                    Err(m) => Err(m),
                }
            },
        }
    }
}

/// `'{' statement* '}'`.
pub open spec fn p_block(t: Seq<TokV>, p: int) -> Parsed<Seq<StmtV>>
    decreases t.len() - p, 0nat,
{
    if !is_kw(t, p, Keyword::LeftCurly) {
        Err("Invalid statement block"@)
    } else {
        p_stmts(t, p + 1, Seq::empty())
    }
}

/// The statements from position `r` up to and including the closing brace, after
/// the statements `acc` already read.
pub open spec fn p_stmts(t: Seq<TokV>, r: int, acc: Seq<StmtV>) -> Parsed<Seq<StmtV>>
    decreases t.len() - r, 2nat,
{
    if r < 0 || r >= t.len() {
        Err("Unterminated statement block"@)
    } else if t[r] == TokV::Kw(Keyword::RightCurly) {
        Ok((acc, r + 1))
    } else {
        match p_stmt(t, r) {
            Err(m) => Err(m),
            Ok((s, r1)) => if r1 <= r || r1 > t.len() {
                Err("Unterminated statement block"@)
            } else {
                p_stmts(t, r1, acc.push(s))
            },
        }
    }
}

/// `IDENT (',' IDENT)* ')'` from position `r`: the position after the `)`.
pub open spec fn p_param_list(t: Seq<TokV>, r: int) -> Result<int, Seq<char>>
    decreases t.len() - r,
{
    if r < 0 || r >= t.len() {
        Err("Unterminated parameter list"@)
    } else {
        match t[r] {
            TokV::Ident(_) => if r + 1 >= t.len() {
                Err("Unterminated parameter list"@)
            } else if t[r + 1] == TokV::Kw(Keyword::RightParenthese) {
                Ok(r + 2)
            } else if t[r + 1] == TokV::Kw(Keyword::Comma) {
                p_param_list(t, r + 2)
            } else {
                Err("Expected \",\" or \")\" after a parameter"@)
            },
            _ => Err("Expected a parameter name"@),
        }
    }
}

/// `(IDENT (',' IDENT)*)? ')'` from position `r`: the position after the `)`.
pub open spec fn p_params(t: Seq<TokV>, r: int) -> Result<int, Seq<char>> {
    if is_kw(t, r, Keyword::RightParenthese) {
        Ok(r + 1)
    } else {
        p_param_list(t, r)
    }
}

/// A function declaration, once its parameter list ended at `r` (if it did).
pub open spec fn function_after_params(
    t: Seq<TokV>,
    name: Seq<char>,
    style: FunctionStyle,
    r: Result<int, Seq<char>>,
) -> Parsed<FunctionV> {
    match r {
        Err(m) => Err(m),
        Ok(r) => match p_block(t, r) {
            Err(m) => Err(m),
            Ok((body, r2)) => Ok((FunctionV { name, body, style }, r2)),
        },
    }
}

/// `['inline'] 'fn' IDENT '(' params ')' block`.
pub open spec fn p_function(t: Seq<TokV>, p: int) -> Parsed<FunctionV> {
    if p < 0 || p >= t.len() {
        Err("Invalid function definition"@)
    } else {
        let inline = t[p] == TokV::Kw(Keyword::Inline);
        let q = if inline { p + 1 } else { p };
        let style = if inline { FunctionStyle::Inline } else { FunctionStyle::Normal };
        if is_kw(t, q, Keyword::Fn) && is_kw(t, q + 2, Keyword::LeftParenthese) {
            match ident_at(t, q + 1) {
                None => Err("Invalid function definition"@),
                Some(name) => function_after_params(t, name, style, p_params(t, q + 3)),
            }
        } else {
            Err("Invalid function definition"@)
        }
    }
}

/// The top-level items from position `p` on, declared into `prog`.
pub open spec fn p_items(t: Seq<TokV>, p: int, prog: ProgramV) -> Result<ProgramV, Seq<char>>
    decreases t.len() - p,
{
    if p < 0 || p >= t.len() {
        Ok(prog)
    } else {
        match p_let(t, p) {
            Ok((n, q)) => p_items(t, q, with_variable(prog, n)),
            Err(m1) => match p_function(t, p) {
                Ok((f, q)) => if q <= p || q > t.len() {
                    Err("Invalid top-level item"@)
                } else {
                    p_items(t, q, with_function(prog, f))
                },
                Err(m2) => Err("Invalid top-level item: "@ + m1 + "; "@ + m2),
            },
        }
    }
}

/// `(global_var | function)*` over all the tokens.
pub open spec fn p_program(t: Seq<TokV>) -> Result<ProgramV, Seq<char>> {
    p_items(t, 0, ProgramV { variables: Seq::empty(), functions: Seq::empty() })
}

// ---------------------------------------------------------------------------
// Executable parsers

fn kw_at(tokens: &[Token], p: usize, k: Keyword) -> (r: bool)
    ensures
        r == is_kw(toks_view(tokens@), p as int, k),
        r ==> p < tokens@.len(),
        tokens@.len() <= usize::MAX,
{
    let n = tokens.len();
    if p < n {
        match &tokens[p] {
            Token::Keyword(k2) => *k2 == k,
            _ => false,
        }
    } else {
        false
    }
}

fn ident_at_exec(tokens: &[Token], p: usize) -> (r: Option<String>)
    ensures
        opt_view(r) == ident_at(toks_view(tokens@), p as int),
        r is Some ==> p < tokens@.len(),
        tokens@.len() <= usize::MAX,
{
    let len = tokens.len();
    if p < len {
        match &tokens[p] {
            Token::Identifier(n) => Some(n.clone()),
            _ => None,
        }
    } else {
        None
    }
}

/// `'let' IDENT`: the declared name.
fn parse_let(tokens: &[Token], pos: &mut usize) -> (r: Result<String, String>)
    requires
        *old(pos) <= tokens@.len(),
    ensures
        match p_let(toks_view(tokens@), *old(pos) as int) {
            Ok((n, q)) => r matches Ok(x) && x@ == n && *final(pos) as int == q,
            Err(m) => r matches Err(x) && x@ == m && *final(pos) == *old(pos),
        },
        r is Ok ==> *old(pos) < *final(pos) <= tokens@.len(),
{
    if kw_at(tokens, *pos, Keyword::Let) {
        match ident_at_exec(tokens, *pos + 1) {
            Some(name) => {
                *pos = *pos + 2;
                Ok(name)
            },
            None => Err(String::from_str("Invalid variable declaration")),
        }
    } else {
        Err(String::from_str("Invalid variable declaration"))
    }
}

/// `'let' IDENT` at the top level.
fn parse_global_variable(tokens: &[Token], pos: &mut usize) -> (r: Result<GlobalVariableAST, String>)
    requires
        *old(pos) <= tokens@.len(),
    ensures
        match p_let(toks_view(tokens@), *old(pos) as int) {
            Ok((n, q)) => r matches Ok(x) && x.name@ == n && *final(pos) as int == q,
            Err(m) => r matches Err(x) && x@ == m && *final(pos) == *old(pos),
        },
        r is Ok ==> *old(pos) < *final(pos) <= tokens@.len(),
{
    match parse_let(tokens, pos) {
        Ok(name) => Ok(GlobalVariableAST { name }),
        Err(e) => Err(e),
    }
}

/// `'let' IDENT` inside a block.
fn parse_local_variable(tokens: &[Token], pos: &mut usize) -> (r: Result<LocalVariableAST, String>)
    requires
        *old(pos) <= tokens@.len(),
    ensures
        match p_let(toks_view(tokens@), *old(pos) as int) {
            Ok((n, q)) => r matches Ok(x) && x.name@ == n && *final(pos) as int == q,
            Err(m) => r matches Err(x) && x@ == m && *final(pos) == *old(pos),
        },
        r is Ok ==> *old(pos) < *final(pos) <= tokens@.len(),
{
    match parse_let(tokens, pos) {
        Ok(name) => Ok(LocalVariableAST { name }),
        Err(e) => Err(e),
    }
}

/// An expression: a call, a string literal, a number literal or a variable
/// reference, tried in that order. When none matches, the message joins the
/// call's and the literal's.
fn parse_expression(tokens: &[Token], pos: &mut usize) -> (r: Result<ExpressionASTNode, String>)
    requires
        *old(pos) <= tokens@.len(),
    ensures
        match p_expr(toks_view(tokens@), *old(pos) as int) {
            Ok((e, q)) => r matches Ok(x) && x@ == e && *final(pos) as int == q,
            Err(m) => r matches Err(x) && x@ == m && *final(pos) == *old(pos),
        },
        r is Ok ==> *old(pos) < *final(pos) <= tokens@.len(),
    decreases tokens@.len() - *old(pos), 1nat,
{
    let p = *pos;
    if p >= tokens.len() {
        return Err(String::from_str("Invalid expression: no tokens left"));
    }
    match parse_function_call(tokens, pos) {
        Ok(fc) => Ok(ExpressionASTNode::FunctionCallAST(fc)),
        Err(call_err) => match &tokens[p] {
            Token::String(s) => {
                *pos = p + 1;
                Ok(ExpressionASTNode::StringLiteral(s.clone()))
            },
            Token::Number(n) => {
                *pos = p + 1;
                Ok(ExpressionASTNode::NumberLiteral(n.clone()))
            },
            Token::Identifier(n) => {
                *pos = p + 1;
                Ok(ExpressionASTNode::VariableReference(n.clone()))
            },
            Token::Keyword(_) => {
                let mut msg = String::from_str("Invalid expression: ");
                msg.append(call_err.as_str());
                msg.append("; ");
                msg.append("not a literal or a variable reference");
                Err(msg)
            },
        },
    }
}

/// `IDENT '(' (expression (',' expression)*)? ')'`.
fn parse_function_call(tokens: &[Token], pos: &mut usize) -> (r: Result<FunctionCallAST, String>)
    requires
        *old(pos) <= tokens@.len(),
    ensures
        match p_call(toks_view(tokens@), *old(pos) as int) {
            Ok((fc, q)) => r matches Ok(x) && x.function_name@ == fc.0 && exprs_view(x.args@)
                == fc.1 && *final(pos) as int == q,
            Err(m) => r matches Err(x) && x@ == m && *final(pos) == *old(pos),
        },
        r is Ok ==> *old(pos) < *final(pos) <= tokens@.len(),
    decreases tokens@.len() - *old(pos), 0nat,
{
    let ghost t = toks_view(tokens@);
    let pos_orig = *pos;
    if pos_orig >= tokens.len() || pos_orig + 1 >= tokens.len() {
        return Err(String::from_str("Invalid function call"));
    }
    let fn_name = match ident_at_exec(tokens, pos_orig) {
        Some(n) => n,
        None => return Err(String::from_str("Invalid function call")),
    };
    if !kw_at(tokens, pos_orig + 1, Keyword::LeftParenthese) {
        return Err(String::from_str("Invalid function call"));
    }
    let mut args: Vec<ExpressionASTNode> = Vec::new();
    assert(exprs_view(args@) =~= Seq::<ExprV>::empty());
    if kw_at(tokens, pos_orig + 2, Keyword::RightParenthese) {
        *pos = pos_orig + 3;
        return Ok(FunctionCallAST { function_name: fn_name, args });
    }
    let mut r: usize = pos_orig + 2;
    loop
        invariant_except_break
            p_args(t, pos_orig + 2, Seq::empty()) == p_args(t, r as int, exprs_view(args@)),
        invariant
            pos_orig + 2 <= r <= tokens@.len(),
            pos_orig + 1 < tokens@.len(),
            t == toks_view(tokens@),
            t.len() == tokens@.len(),
            p_call(t, pos_orig as int) == match p_args(t, pos_orig + 2, Seq::empty()) {
                Ok((args, q)) => Ok(((fn_name@, args), q)),
                Err(m) => Err(m),
            },
            *pos == pos_orig,
            pos_orig == *old(pos),
        ensures
            p_args(t, pos_orig + 2, Seq::empty()) == Ok::<(Seq<ExprV>, int), Seq<char>>(
                (exprs_view(args@), r as int),
            ),
        decreases tokens@.len() - r,
    {
        if r >= tokens.len() {
            return Err(String::from_str("Unterminated argument list"));
        }
        *pos = r;
        let ghost before = exprs_view(args@);
        match parse_expression(tokens, pos) {
            Ok(e) => {
                let ghost ev = e@;
                args.push(e);
                assert(exprs_view(args@) =~= before.push(ev));
            },
            Err(err) => {
                *pos = pos_orig;
                return Err(err);
            },
        }
        let r1 = *pos;
        *pos = pos_orig;
        if r1 >= tokens.len() {
            return Err(String::from_str("Unterminated argument list"));
        }
        if kw_at(tokens, r1, Keyword::RightParenthese) {
            r = r1 + 1;
            break;
        }
        if !kw_at(tokens, r1, Keyword::Comma) {
            return Err(String::from_str("Expected \",\" or \")\" after an argument"));
        }
        r = r1 + 1;
    }
    *pos = r;
    Ok(FunctionCallAST { function_name: fn_name, args })
}

/// `IDENT '=' expression`.
fn parse_assignment(tokens: &[Token], pos: &mut usize) -> (r: Result<AssignmentAST, String>)
    requires
        *old(pos) <= tokens@.len(),
    ensures
        match p_assign(toks_view(tokens@), *old(pos) as int) {
            Ok((a, q)) => r matches Ok(x) && x.target_var_name@ == a.0 && x.value@ == a.1
                && *final(pos) as int == q,
            Err(m) => r matches Err(x) && x@ == m && *final(pos) == *old(pos),
        },
        r is Ok ==> *old(pos) < *final(pos) <= tokens@.len(),
{
    let pos_orig = *pos;
    let target_var_name = match ident_at_exec(tokens, pos_orig) {
        Some(n) => n,
        None => return Err(String::from_str("Invalid assignment")),
    };
    if !kw_at(tokens, pos_orig + 1, Keyword::Assign) {
        return Err(String::from_str("Invalid assignment"));
    }
    *pos = pos_orig + 2;
    match parse_expression(tokens, pos) {
        Ok(value) => Ok(AssignmentAST { target_var_name, value }),
        Err(err) => {
            *pos = pos_orig;
            Err(err)
        },
    }
}

/// One statement: a local variable, an assignment, an expression, an `if` or a
/// `while`, tried in that order. An identifier followed by `=` is an assignment
/// or an error. When no alternative matches, the message joins what each one
/// reported.
pub fn parse_statement(tokens: &[Token], pos: &mut usize) -> (r: Result<StatementASTNode, String>)
    requires
        *old(pos) <= tokens@.len(),
    ensures
        match p_stmt(toks_view(tokens@), *old(pos) as int) {
            Ok((s, q)) => r matches Ok(x) && x@ == s && *final(pos) as int == q,
            Err(m) => r matches Err(x) && x@ == m && *final(pos) == *old(pos),
        },
        r is Ok ==> *old(pos) < *final(pos) <= tokens@.len(),
    decreases tokens@.len() - *old(pos), 1nat,
{
    let p = *pos;
    if p >= tokens.len() {
        return Err(String::from_str("Invalid statement: no tokens left"));
    }
    let e1 = match parse_local_variable(tokens, pos) {
        Ok(x) => return Ok(StatementASTNode::LocalVariableAST(x)),
        Err(e) => e,
    };
    let e2 = match parse_assignment(tokens, pos) {
        Ok(x) => return Ok(StatementASTNode::AssignmentAST(x)),
        Err(e) => e,
    };
    let mut msg = String::from_str("Invalid statement: ");
    if ident_at_exec(tokens, p).is_some() && kw_at(tokens, p + 1, Keyword::Assign) {
        msg.append(e2.as_str());
        return Err(msg);
    }
    let e3 = match parse_expression(tokens, pos) {
        Ok(x) => return Ok(StatementASTNode::ExpressionAST(x)),
        Err(e) => e,
    };
    let e4 = match parse_if(tokens, pos) {
        Ok(x) => return Ok(StatementASTNode::IfAST(x)),
        Err(e) => e,
    };
    let e5 = match parse_while(tokens, pos) {
        Ok(x) => return Ok(StatementASTNode::WhileAST(x)),
        Err(e) => e,
    };
    msg.append(e1.as_str());
    msg.append("; ");
    msg.append(e2.as_str());
    msg.append("; ");
    msg.append(e3.as_str());
    msg.append("; ");
    msg.append(e4.as_str());
    msg.append("; ");
    msg.append(e5.as_str());
    Err(msg)
}

/// `'if' expression block ('else' block)?`.
fn parse_if(tokens: &[Token], pos: &mut usize) -> (r: Result<IfAST, String>)
    requires
        *old(pos) <= tokens@.len(),
    ensures
        match p_if(toks_view(tokens@), *old(pos) as int) {
            Ok((i, q)) => r matches Ok(x) && x.condition@ == i.0 && stmts_view(x.then_block@)
                == i.1 && stmts_view(x.else_block@) == i.2 && *final(pos) as int == q,
            Err(m) => r matches Err(x) && x@ == m && *final(pos) == *old(pos),
        },
        r is Ok ==> *old(pos) < *final(pos) <= tokens@.len(),
    decreases tokens@.len() - *old(pos), 0nat,
{
    let pos_orig = *pos;
    if !kw_at(tokens, pos_orig, Keyword::If) {
        return Err(String::from_str("Invalid if statement"));
    }
    *pos = pos_orig + 1;
    let condition = match parse_expression(tokens, pos) {
        Ok(c) => c,
        Err(err) => {
            *pos = pos_orig;
            return Err(err);
        },
    };
    let then_block = match parse_statement_block(tokens, pos) {
        Ok(b) => b,
        Err(err) => {
            *pos = pos_orig;
            return Err(err);
        },
    };
    if kw_at(tokens, *pos, Keyword::Else) {
        *pos = *pos + 1;
        match parse_statement_block(tokens, pos) {
            Ok(else_block) => Ok(IfAST { condition, then_block, else_block }),
            Err(err) => {
                *pos = pos_orig;
                Err(err)
            },
        }
    } else {
        let else_block = Vec::new();
        assert(stmts_view(else_block@) =~= Seq::<StmtV>::empty());
        Ok(IfAST { condition, then_block, else_block })
    }
}

/// `'while' expression block`.
fn parse_while(tokens: &[Token], pos: &mut usize) -> (r: Result<WhileAST, String>)
    requires
        *old(pos) <= tokens@.len(),
    ensures
        match p_while(toks_view(tokens@), *old(pos) as int) {
            Ok((w, q)) => r matches Ok(x) && x.condition@ == w.0 && stmts_view(x.do_block@) == w.1
                && *final(pos) as int == q,
            Err(m) => r matches Err(x) && x@ == m && *final(pos) == *old(pos),
        },
        r is Ok ==> *old(pos) < *final(pos) <= tokens@.len(),
    decreases tokens@.len() - *old(pos), 0nat,
{
    let pos_orig = *pos;
    if !kw_at(tokens, pos_orig, Keyword::While) {
        return Err(String::from_str("Invalid while statement"));
    }
    *pos = pos_orig + 1;
    let condition = match parse_expression(tokens, pos) {
        Ok(c) => c,
        Err(err) => {
            *pos = pos_orig;
            return Err(err);
        },
    };
    match parse_statement_block(tokens, pos) {
        Ok(do_block) => Ok(WhileAST { condition, do_block }),
        Err(err) => {
            *pos = pos_orig;
            Err(err)
        },
    }
}

/// `'{' statement* '}'`.
fn parse_statement_block(tokens: &[Token], pos: &mut usize) -> (r: Result<
    Vec<StatementASTNode>,
    String,
>)
    requires
        *old(pos) <= tokens@.len(),
    ensures
        match p_block(toks_view(tokens@), *old(pos) as int) {
            Ok((ss, q)) => r matches Ok(x) && stmts_view(x@) == ss && *final(pos) as int == q,
            Err(m) => r matches Err(x) && x@ == m && *final(pos) == *old(pos),
        },
        r is Ok ==> *old(pos) < *final(pos) <= tokens@.len(),
    decreases tokens@.len() - *old(pos), 0nat,
{
    let ghost t = toks_view(tokens@);
    let pos_orig = *pos;
    if !kw_at(tokens, pos_orig, Keyword::LeftCurly) {
        return Err(String::from_str("Invalid statement block"));
    }
    let mut statements: Vec<StatementASTNode> = Vec::new();
    let mut r: usize = pos_orig + 1;
    assert(stmts_view(statements@) =~= Seq::<StmtV>::empty());
    loop
        invariant_except_break
            p_stmts(t, pos_orig + 1, Seq::empty()) == p_stmts(t, r as int, stmts_view(statements@)),
        invariant
            pos_orig + 1 <= r <= tokens@.len(),
            pos_orig < tokens@.len(),
            t == toks_view(tokens@),
            t.len() == tokens@.len(),
            p_block(t, pos_orig as int) == p_stmts(t, pos_orig + 1, Seq::empty()),
            *pos == pos_orig,
            pos_orig == *old(pos),
        ensures
            p_stmts(t, pos_orig + 1, Seq::empty()) == Ok::<(Seq<StmtV>, int), Seq<char>>(
                (stmts_view(statements@), r as int),
            ),
        decreases tokens@.len() - r,
    {
        if r >= tokens.len() {
            return Err(String::from_str("Unterminated statement block"));
        }
        if kw_at(tokens, r, Keyword::RightCurly) {
            r = r + 1;
            break;
        }
        *pos = r;
        let ghost before = stmts_view(statements@);
        match parse_statement(tokens, pos) {
            Ok(st) => {
                let ghost sv = st@;
                statements.push(st);
                assert(stmts_view(statements@) =~= before.push(sv));
            },
            Err(err) => {
                *pos = pos_orig;
                return Err(err);
            },
        }
        r = *pos;
        *pos = pos_orig;
    }
    *pos = r;
    Ok(statements)
}

/// The end of the parameter list that starts at `r`, just after `(`.
fn parse_parameters(tokens: &[Token], r0: usize) -> (r: Result<usize, String>)
    requires
        r0 <= tokens@.len(),
    ensures
        match p_params(toks_view(tokens@), r0 as int) {
            Ok(q) => r matches Ok(x) && x as int == q,
            Err(m) => r matches Err(x) && x@ == m,
        },
        r matches Ok(x) ==> r0 < x <= tokens@.len(),
{
    let ghost t = toks_view(tokens@);
    if kw_at(tokens, r0, Keyword::RightParenthese) {
        return Ok(r0 + 1);
    }
    let mut r: usize = r0;
    loop
        invariant
            r0 <= r <= tokens@.len(),
            t == toks_view(tokens@),
            t.len() == tokens@.len(),
            p_params(t, r0 as int) == p_param_list(t, r as int),
        decreases tokens@.len() - r,
    {
        if r >= tokens.len() {
            return Err(String::from_str("Unterminated parameter list"));
        }
        assert(t[r as int] == tokens@[r as int]@);
        match &tokens[r] {
            Token::Identifier(_) => {
                if r + 1 >= tokens.len() {
                    return Err(String::from_str("Unterminated parameter list"));
                }
                if kw_at(tokens, r + 1, Keyword::RightParenthese) {
                    return Ok(r + 2);
                }
                if !kw_at(tokens, r + 1, Keyword::Comma) {
                    return Err(String::from_str("Expected \",\" or \")\" after a parameter"));
                }
                r = r + 2;
            },
            _ => {
                return Err(String::from_str("Expected a parameter name"));
            },
        }
    }
}

/// `['inline'] 'fn' IDENT '(' (IDENT (',' IDENT)*)? ')' block`.
fn parse_function(tokens: &[Token], pos: &mut usize) -> (r: Result<FunctionAST, String>)
    requires
        *old(pos) <= tokens@.len(),
    ensures
        match p_function(toks_view(tokens@), *old(pos) as int) {
            Ok((f, q)) => r matches Ok(x) && x@ == f && *final(pos) as int == q,
            Err(m) => r matches Err(x) && x@ == m && *final(pos) == *old(pos),
        },
        r is Ok ==> *old(pos) < *final(pos) <= tokens@.len(),
{
    let ghost t = toks_view(tokens@);
    let pos_orig = *pos;
    if pos_orig >= tokens.len() {
        return Err(String::from_str("Invalid function definition"));
    }
    let inline = kw_at(tokens, pos_orig, Keyword::Inline);
    let q = if inline { pos_orig + 1 } else { pos_orig };
    let style = if inline { FunctionStyle::Inline } else { FunctionStyle::Normal };
    if !kw_at(tokens, q, Keyword::Fn) {
        return Err(String::from_str("Invalid function definition"));
    }
    let name = match ident_at_exec(tokens, q + 1) {
        Some(n) => n,
        None => return Err(String::from_str("Invalid function definition")),
    };
    if !kw_at(tokens, q + 2, Keyword::LeftParenthese) {
        return Err(String::from_str("Invalid function definition"));
    }
    assert(p_function(t, pos_orig as int) == function_after_params(t, name@, style, p_params(t, q + 3)));
    // Parameters are read and dropped: nothing binds them yet.
    let r = match parse_parameters(tokens, q + 3) {
        Ok(r) => r,
        Err(err) => return Err(err),
    };
    *pos = r;
    match parse_statement_block(tokens, pos) {
        Ok(statements) => Ok(FunctionAST { name, statements, style }),
        Err(err) => {
            *pos = pos_orig;
            Err(err)
        },
    }
}

/// Parses a whole program: global variables and functions, in any order. A name
/// declared twice keeps its last declaration.
pub fn parse_program(tokens: &[Token]) -> (r: Result<ProgramAST, String>)
    ensures
        match p_program(toks_view(tokens@)) {
            Ok(p) => r matches Ok(x) && x@ == p,
            Err(m) => r matches Err(x) && x@ == m,
        },
        r matches Ok(x) ==> names_unique(x@),
{
    let ghost t = toks_view(tokens@);
    let mut pos: usize = 0;
    let mut program_ast = ProgramAST::new();
    assert(program_ast@.variables =~= Seq::empty());
    assert(program_ast@.functions =~= Seq::empty());
    while pos < tokens.len()
        invariant
            pos <= tokens@.len(),
            t == toks_view(tokens@),
            names_unique(program_ast@),
            p_program(t) == p_items(t, pos as int, program_ast@),
        decreases tokens@.len() - pos,
    {
        match parse_global_variable(tokens, &mut pos) {
            Ok(global_var) => {
                program_ast.insert_variable(global_var);
            },
            Err(var_err) => match parse_function(tokens, &mut pos) {
                Ok(func) => {
                    program_ast.insert_function(func);
                },
                Err(fn_err) => {
                    let mut msg = String::from_str("Invalid top-level item: ");
                    msg.append(var_err.as_str());
                    msg.append("; ");
                    msg.append(fn_err.as_str());
                    return Err(msg);
                },
            },
        }
    }
    Ok(program_ast)
}

} // verus!
