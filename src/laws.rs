//! Properties of the pipeline as a whole, proved over the specifications.
use vstd::prelude::*;
use crate::ast::{lookup_function, ExprV, FunctionV, ProgramV, StmtV};
use crate::generator::{
    counter_room, declare, emit, first_mismatch, gen_assign, gen_block, gen_call,
    gen_call_statement, gen_function, gen_functions, gen_intrinsic, gen_program, gen_stmt,
    gen_tmp, gen_tmps, intrinsic_of, is_reserved, loop_begin, loop_end, mangle_of, pop_scope, push_scope, radar_kinds, resolve,
    resolve_upto, with_uid, ArgumentKind, GenErrorV, GenState, Intrinsic, ScopeV,
};
use crate::mlog::{render, InstrV};
use crate::parser::{
    ident_at, is_kw, p_args, p_block, p_call, p_expr, p_function, p_if, p_let, p_param_list,
    p_params, p_program, p_stmt, p_stmts, p_while,
};
use crate::text::{decimal, lemma_numbered_distinct};
use crate::tokenizer::{lex_all, Keyword, TokV};

verus! {

/// A line in one of the target forms: `set`, `op`, a conditional or an
/// unconditional `jump`, `radar`, `ubind`, `ucontrol move`, or a label.
pub open spec fn is_target_line(l: Seq<char>) -> bool {
    ||| exists|d: Seq<char>, s: Seq<char>| l == "set "@ + d + " "@ + s
    ||| exists|o: Seq<char>, d: Seq<char>, a: Seq<char>, b: Seq<char>|
        l == "op "@ + o + " "@ + d + " "@ + a + " "@ + b
    ||| exists|x: Seq<char>, c: Seq<char>| l == "jump "@ + x + " equal "@ + c + " 0"@
    ||| exists|x: Seq<char>| l == "jump "@ + x + " always"@
    ||| exists|f1: Seq<char>, f2: Seq<char>, f3: Seq<char>, s: Seq<char>, o: Seq<char>, ord: Seq<char>, out: Seq<char>|
        l == "radar "@ + f1 + " "@ + f2 + " "@ + f3 + " "@ + s + " "@ + o + " "@ + ord + " "@ + out
    ||| exists|o: Seq<char>| l == "ubind "@ + o
    ||| exists|x: Seq<char>, y: Seq<char>, z: Seq<char>, w: Seq<char>|
        l == "ucontrol move "@ + x + " "@ + y + " "@ + z + " "@ + w + " 0"@
    ||| exists|x: Seq<char>| l == x + ":"@
}

/// Every instruction the generator can produce is written as a line in one of
/// the target forms.
pub proof fn lemma_instruction_lines(i: InstrV)
    ensures
        is_target_line(render(i)),
{
    let l = render(i);
    match i {
        InstrV::SetVariable(d, s) => {
            assert(l == "set "@ + d + " "@ + s);
        },
        InstrV::Op(o, d, a, b) => {
            assert(l == "op "@ + o + " "@ + d + " "@ + a + " "@ + b);
        },
        InstrV::JumpIfZero(x, c) => {
            assert(l == "jump "@ + x + " equal "@ + c + " 0"@);
        },
        InstrV::Jump(x) => {
            assert(l == "jump "@ + x + " always"@);
        },
        InstrV::Radar(f1, f2, f3, s, o, ord, out) => {
            assert(l == "radar "@ + f1 + " "@ + f2 + " "@ + f3 + " "@ + s + " "@ + o + " "@ + ord + " "@ + out);
        },
        InstrV::Ubind(o) => {
            assert(l == "ubind "@ + o);
        },
        InstrV::UcontrolMove(x, y) => {
            assert(l == "ucontrol move "@ + x + " "@ + y + " "@ + "0"@ + " "@ + "0"@ + " 0"@) by {
                reveal_strlit(" 0 0 0");
                reveal_strlit(" ");
                reveal_strlit("0");
                reveal_strlit(" 0");
                assert(" 0 0 0"@ =~= " "@ + "0"@ + " "@ + "0"@ + " 0"@);
            }
        },
        InstrV::UcontrolWithin(x, y, r, res) => {
            assert(l == "ucontrol move "@ + x + " "@ + y + " "@ + r + " "@ + res + " 0"@);
        },
        InstrV::Label(x) => {
            assert(l == x + ":"@);
        },
    }
}

/// An identifier followed by `=` is parsed as an assignment of the expression
/// after the `=`, or not at all: never as an expression statement that holds a
/// bare variable reference.
pub proof fn lemma_identifier_assign_is_assignment(t: Seq<TokV>, p: int)
    requires
        0 <= p,
        ident_at(t, p) is Some,
        is_kw(t, p + 1, Keyword::Assign),
    ensures
        match p_expr(t, p + 2) {
            Ok((e, q)) => p_stmt(t, p) == Ok::<(StmtV, int), Seq<char>>(
                (StmtV::Assign(ident_at(t, p)->0, e), q),
            ),
            Err(_) => p_stmt(t, p) is Err,
        },
{
}

/// Whatever text lexes, parses and lowers without error, the output is a
/// sequence of lines each in one of the target forms (and each stage, being a
/// total function, terminates).
pub proof fn lemma_pipeline_output_forms(s: Seq<char>)
    ensures
        lex_all(s) matches Ok(t) ==> (p_program(t) matches Ok(p) ==> (gen_program(p) matches Ok(
            code,
        ) ==> forall|k: int| 0 <= k < code.len() ==> is_target_line(#[trigger] render(code[k])))),
{
    if let Ok(t) = lex_all(s) {
        if let Ok(p) = p_program(t) {
            if let Ok(code) = gen_program(p) {
                assert forall|k: int| 0 <= k < code.len() implies is_target_line(
                    #[trigger] render(code[k]),
                ) by {
                    lemma_instruction_lines(code[k]);
                }
            }
        }
    }
}


/// `radar` with six arguments whose first is not a string literal fails with a
/// kind mismatch at position 1, before anything is emitted.
pub proof fn lemma_radar_first_argument(
    p: ProgramV,
    st: GenState,
    f: Seq<char>,
    args: Seq<ExprV>,
    target: Seq<char>,
)
    requires
        args.len() == 6,
        !(args[0] is Str),
    ensures
        gen_intrinsic(p, st, Intrinsic::Radar, f, args, target) == Err::<GenState, GenErrorV>(
            GenErrorV::ArgumentKindMismatch(f, 1, ArgumentKind::StringLiteral),
        ),
{
    assert(first_mismatch(args, radar_kinds(), 0) == Some(0int));
}

/// `code` is `before` followed by the lowering of the loop numbered `u`, with
/// condition code `cc` that leaves the condition in `cv`, and body code `bc`;
/// neither `cc` nor `bc` mentions the loop's labels, and `cv` is the loop's one
/// condition temporary, `cond_<u + 2>` under the suffix of the loop's scope.
pub open spec fn while_shape(
    before: Seq<InstrV>,
    code: Seq<InstrV>,
    u: nat,
    cc: Seq<InstrV>,
    cv: Seq<char>,
    bc: Seq<InstrV>,
) -> bool {
    &&& cv == "cond_"@ + decimal(u + 2) + mangle_of(u + 3)
    &&& code == before + seq![InstrV::Label(loop_begin(u))] + cc + seq![
        InstrV::JumpIfZero(loop_end(u + 1), cv),
    ] + bc + seq![InstrV::Jump(loop_begin(u)), InstrV::Label(loop_end(u + 1))]
    &&& forall|j: int|
        0 <= j < cc.len() ==> !mentions(#[trigger] cc[j], loop_begin(u)) && !mentions(
            cc[j],
            loop_end(u + 1),
        )
    &&& forall|j: int|
        0 <= j < bc.len() ==> !mentions(#[trigger] bc[j], loop_begin(u)) && !mentions(
            bc[j],
            loop_end(u + 1),
        )
}

/// `while c { body }` lowers to one begin label, the condition's code, one jump
/// to the end label taken when the condition temporary is zero, the body's code,
/// one jump back to the begin label and one end label. Neither the condition's
/// nor the body's code mentions either label, so each occurs exactly once. The
/// condition temporary is declared once, in the scope that the whole loop opens:
/// the conditional jump always tests that one name.
pub proof fn lemma_while_lowering(p: ProgramV, st: GenState, c: ExprV, body: Seq<StmtV>)
    requires
        no_loop_named_functions(p),
    ensures
        loop_begin(st.uid) != loop_end(st.uid + 1),
        gen_stmt(p, st, StmtV::While(c, body)) matches Ok(st2) ==> exists|
            cc: Seq<InstrV>,
            cv: Seq<char>,
            bc: Seq<InstrV>,
        | #[trigger] while_shape(st.code, st2.code, st.uid, cc, cv, bc),
{
    let u = st.uid;
    lemma_label_names(u + 1, u);
    if let Ok(st2) = gen_stmt(p, st, StmtV::While(c, body)) {
        let begin = loop_begin(u);
        let end = loop_end(u + 1);
        let cond = "cond_"@ + decimal(u + 2);
        let st0 = declare(push_scope(with_uid(st, u + 4), mangle_of(u + 3)), cond);
        let st1 = emit(st0, InstrV::Label(begin));
        lemma_frame_assign(p, st1, cond, c);
        let sa = gen_assign(p, st1, cond, c)->Ok_0;
        let cv = resolve(p, sa.scopes, cond)->Some_0;
        lemma_scopes_assign(p, st1, cond, c);
        assert(cv == cond + mangle_of(u + 3)) by {
            reveal_strlit("cond_");
            assert(cond[0] == 'c');
            let top = st0.scopes[st0.scopes.len() - 1];
            assert(top.names[0] == cond);
            assert(resolve_upto(st0.scopes, cond, st0.scopes.len() as int) == Some(cond + mangle_of(u + 3)));
        }
        let st3 = emit(sa, InstrV::JumpIfZero(end, cv));
        lemma_frame_block(p, st3, body, 0);
        let sb = gen_block(p, st3, body, 0)->Ok_0;
        let cc = sa.code.skip(st1.code.len() as int);
        let bc = sb.code.skip(st3.code.len() as int);
        assert(sa.code =~= st1.code + cc);
        assert(sb.code =~= st3.code + bc);
        assert(st2.code =~= st.code + seq![InstrV::Label(begin)] + cc + seq![
            InstrV::JumpIfZero(end, cv),
        ] + bc + seq![InstrV::Jump(begin), InstrV::Label(end)]);
        assert forall|j: int| 0 <= j < cc.len() implies !mentions(#[trigger] cc[j], begin) && !mentions(
            cc[j],
            end,
        ) by {
            assert(cc[j] == sa.code[j + st1.code.len()]);
            assert(clean(sa.code[j + st1.code.len()], st1.uid));
            assert(loop_begin(u) == begin);
        }
        assert forall|j: int| 0 <= j < bc.len() implies !mentions(#[trigger] bc[j], begin) && !mentions(
            bc[j],
            end,
        ) by {
            assert(bc[j] == sb.code[j + st3.code.len()]);
            assert(clean(sb.code[j + st3.code.len()], st3.uid));
            assert(loop_begin(u) == begin);
        }
        assert(while_shape(st.code, st2.code, u, cc, cv, bc));
    }
}

/// In state `s1`, `n` resolves to `x1`, and the code of storing `e1` into `n`
/// from `s1` is a prefix of `code`; likewise `s2`, `x2`, `e2`.
pub open spec fn both_stored(
    p: ProgramV,
    n: Seq<char>,
    s1: GenState,
    e1: ExprV,
    x1: Seq<char>,
    s2: GenState,
    e2: ExprV,
    x2: Seq<char>,
    code: Seq<InstrV>,
) -> bool {
    &&& resolve(p, s1.scopes, n) == Some(x1)
    &&& gen_assign(p, s1, n, e1) matches Ok(a1) && code.take(a1.code.len() as int) == a1.code
    &&& resolve(p, s2.scopes, n) == Some(x2)
    &&& gen_assign(p, s2, n, e2) matches Ok(a2) && code.take(a2.code.len() as int) == a2.code
}

/// The two branches of an `if` that each declare the same name and store any
/// value into it give it two different physical names: each branch opens a
/// scope whose suffix comes from its own counter value, taken while the `if`
/// is lowered.
pub proof fn lemma_if_branches_distinct(
    p: ProgramV,
    st: GenState,
    c: ExprV,
    n: Seq<char>,
    e1: ExprV,
    e2: ExprV,
)
    requires
        !is_reserved(n),
    ensures
        n + mangle_of(st.uid + 3) != n + mangle_of(st.uid + 4),
        gen_stmt(
            p,
            st,
            StmtV::If(
                c,
                seq![StmtV::Let(n), StmtV::Assign(n, e1)],
                seq![StmtV::Let(n), StmtV::Assign(n, e2)],
            ),
        ) matches Ok(st2) ==> st.uid + 4 < st2.uid && exists|s1: GenState, s2: GenState|
            #[trigger] both_stored(
                p,
                n,
                s1,
                e1,
                n + mangle_of(st.uid + 3),
                s2,
                e2,
                n + mangle_of(st.uid + 4),
                st2.code,
            ),
{
    let u = st.uid;
    assert(n + mangle_of(u + 3) != n + mangle_of(u + 4)) by {
        lemma_numbered_distinct(n + "_"@, u + 3, u + 4);
        assert(n + mangle_of(u + 3) =~= (n + "_"@) + decimal(u + 3));
        assert(n + mangle_of(u + 4) =~= (n + "_"@) + decimal(u + 4));
    }
    let th = seq![StmtV::Let(n), StmtV::Assign(n, e1)];
    let el = seq![StmtV::Let(n), StmtV::Assign(n, e2)];
    if let Ok(st2) = gen_stmt(p, st, StmtV::If(c, th, el)) {
        let else_label = "else_"@ + decimal(u);
        let cond = "cond_"@ + decimal(u + 1);
        let end_label = "endif_"@ + decimal(u + 5);
        let st1 = declare(push_scope(with_uid(st, u + 6), mangle_of(u + 2)), cond);
        let sa = gen_assign(p, st1, cond, c)->Ok_0;
        lemma_frame_assign(p, st1, cond, c);
        let cv = resolve(p, sa.scopes, cond)->Some_0;
        let st3 = push_scope(pop_scope(emit(sa, InstrV::JumpIfZero(else_label, cv))), mangle_of(u + 3));
        lemma_declare_then_store(p, st3, n, e1);
        let s1 = declare(st3, n);
        let a1 = gen_assign(p, s1, n, e1)->Ok_0;
        lemma_frame_assign(p, s1, n, e1);
        let st5 = push_scope(
            emit(emit(pop_scope(a1), InstrV::Jump(end_label)), InstrV::Label(else_label)),
            mangle_of(u + 4),
        );
        lemma_declare_then_store(p, st5, n, e2);
        let s2 = declare(st5, n);
        let a2 = gen_assign(p, s2, n, e2)->Ok_0;
        lemma_frame_assign(p, s2, n, e2);
        assert(st2 == emit(pop_scope(a2), InstrV::Label(end_label)));
        assert(st2.code.take(a2.code.len() as int) =~= a2.code);
        assert(st2.code.take(a1.code.len() as int) =~= a1.code) by {
            assert(s2.code =~= a1.code + seq![InstrV::Jump(end_label), InstrV::Label(else_label)]);
            assert forall|k: int| 0 <= k < a1.code.len() implies st2.code[k] == a1.code[k] by {
                assert(a2.code.take(s2.code.len() as int)[k] == s2.code[k]);
            }
        }
        assert(both_stored(p, n, s1, e1, n + mangle_of(u + 3), s2, e2, n + mangle_of(u + 4), st2.code));
    }
}

/// `let n` followed by `n = e` in a block whose scope is open: the store is
/// lowered where `n` resolves to `n` under that scope's suffix.
proof fn lemma_declare_then_store(p: ProgramV, s0: GenState, n: Seq<char>, e: ExprV)
    requires
        !is_reserved(n),
        s0.scopes.len() > 0,
    ensures
        resolve(p, declare(s0, n).scopes, n) == Some(n + s0.scopes.last().mangle),
        gen_block(p, s0, seq![StmtV::Let(n), StmtV::Assign(n, e)], 0) == gen_assign(
            p,
            declare(s0, n),
            n,
            e,
        ),
{
    let ss = seq![StmtV::Let(n), StmtV::Assign(n, e)];
    let t1 = declare(s0, n);
    let m = s0.scopes.last().mangle;
    let top = t1.scopes[t1.scopes.len() - 1];
    assert(top.names.last() == n);
    assert(top.names.contains(n));
    assert(resolve_upto(t1.scopes, n, t1.scopes.len() as int) == Some(n + m));
    assert(ss[0] == StmtV::Let(n));
    assert(ss[1] == StmtV::Assign(n, e));
    assert(gen_stmt(p, s0, ss[0]) == Ok::<GenState, GenErrorV>(t1));
    assert(gen_stmt(p, t1, ss[1]) == gen_assign(p, t1, n, e));
    if let Ok(a) = gen_assign(p, t1, n, e) {
        assert(gen_block(p, a, ss, 2) == Ok::<GenState, GenErrorV>(a));
    }
    assert(gen_block(p, s0, ss, 0) == gen_block(p, t1, ss, 1));
}

// ---------------------------------------------------------------------------
// Parsers advance

/// Every parser that succeeds consumes at least one token and stops within the
/// tokens. So each top-level item moves the cursor forward, and parsing a
/// program ends after at most one step per token.
pub proof fn lemma_parsers_advance(t: Seq<TokV>, p: int)
    requires
        0 <= p,
    ensures
        p_let(t, p) matches Ok((_, q)) ==> p < q <= t.len(),
        p_expr(t, p) matches Ok((_, q)) ==> p < q <= t.len(),
        p_stmt(t, p) matches Ok((_, q)) ==> p < q <= t.len(),
        p_block(t, p) matches Ok((_, q)) ==> p < q <= t.len(),
        p_function(t, p) matches Ok((_, q)) ==> p < q <= t.len(),
{
    lemma_expr_advances(t, p);
    lemma_stmt_advances(t, p);
    lemma_block_advances(t, p);
    if 0 <= p < t.len() {
        let q = if t[p] == TokV::Kw(Keyword::Inline) { p + 1 } else { p };
        lemma_params_advance(t, q + 3);
        if let Ok(r) = p_params(t, q + 3) {
            lemma_block_advances(t, r);
        }
    }
}

proof fn lemma_params_advance(t: Seq<TokV>, r: int)
    requires
        0 <= r,
    ensures
        p_params(t, r) matches Ok(q) ==> r < q <= t.len(),
{
    lemma_param_list_advances(t, r);
}

proof fn lemma_param_list_advances(t: Seq<TokV>, r: int)
    requires
        0 <= r,
    ensures
        p_param_list(t, r) matches Ok(q) ==> r < q <= t.len(),
    decreases t.len() - r,
{
    if r + 2 <= t.len() {
        lemma_param_list_advances(t, r + 2);
    }
}

proof fn lemma_expr_advances(t: Seq<TokV>, p: int)
    requires
        0 <= p,
    ensures
        p_expr(t, p) matches Ok((_, q)) ==> p < q <= t.len(),
    decreases t.len() - p, 1nat,
{
    if p < t.len() {
        lemma_call_advances(t, p);
    }
}

proof fn lemma_call_advances(t: Seq<TokV>, p: int)
    requires
        0 <= p,
    ensures
        p_call(t, p) matches Ok((_, q)) ==> p < q <= t.len(),
    decreases t.len() - p, 0nat,
{
    if p + 1 < t.len() {
        lemma_args_advance(t, p + 2, Seq::empty());
    }
}

proof fn lemma_args_advance(t: Seq<TokV>, r: int, acc: Seq<ExprV>)
    requires
        0 <= r,
    ensures
        p_args(t, r, acc) matches Ok((_, q)) ==> r < q <= t.len(),
    decreases t.len() - r, 2nat,
{
    if r < t.len() {
        lemma_expr_advances(t, r);
        if let Ok((e, r1)) = p_expr(t, r) {
            if r < r1 < t.len() && t[r1] == TokV::Kw(Keyword::Comma) {
                lemma_args_advance(t, r1 + 1, acc.push(e));
            }
        }
    }
}

proof fn lemma_stmt_advances(t: Seq<TokV>, p: int)
    requires
        0 <= p,
    ensures
        p_stmt(t, p) matches Ok((_, q)) ==> p < q <= t.len(),
    decreases t.len() - p, 1nat,
{
    if p < t.len() {
        lemma_expr_advances(t, p);
        lemma_expr_advances(t, p + 2);
        lemma_if_advances(t, p);
        lemma_while_advances(t, p);
    }
}

proof fn lemma_if_advances(t: Seq<TokV>, p: int)
    requires
        0 <= p,
    ensures
        p_if(t, p) matches Ok((_, q)) ==> p < q <= t.len(),
    decreases t.len() - p, 0nat,
{
    if is_kw(t, p, Keyword::If) {
        if let Ok((c, r1)) = p_expr(t, p + 1) {
            if p < r1 <= t.len() {
                lemma_block_advances(t, r1);
                if let Ok((th, r2)) = p_block(t, r1) {
                    if p < r2 <= t.len() && is_kw(t, r2, Keyword::Else) {
                        lemma_block_advances(t, r2 + 1);
                    }
                }
            }
        }
    }
}

proof fn lemma_while_advances(t: Seq<TokV>, p: int)
    requires
        0 <= p,
    ensures
        p_while(t, p) matches Ok((_, q)) ==> p < q <= t.len(),
    decreases t.len() - p, 0nat,
{
    if is_kw(t, p, Keyword::While) {
        if let Ok((c, r1)) = p_expr(t, p + 1) {
            if p < r1 <= t.len() {
                lemma_block_advances(t, r1);
            }
        }
    }
}

proof fn lemma_block_advances(t: Seq<TokV>, p: int)
    requires
        0 <= p,
    ensures
        p_block(t, p) matches Ok((_, q)) ==> p < q <= t.len(),
    decreases t.len() - p, 0nat,
{
    if is_kw(t, p, Keyword::LeftCurly) {
        lemma_stmts_advance(t, p + 1, Seq::empty());
    }
}

proof fn lemma_stmts_advance(t: Seq<TokV>, r: int, acc: Seq<StmtV>)
    requires
        0 <= r,
    ensures
        p_stmts(t, r, acc) matches Ok((_, q)) ==> r < q <= t.len(),
    decreases t.len() - r, 2nat,
{
    if r < t.len() && t[r] != TokV::Kw(Keyword::RightCurly) {
        lemma_stmt_advances(t, r);
        if let Ok((s, r1)) = p_stmt(t, r) {
            if r < r1 <= t.len() {
                lemma_stmts_advance(t, r1, acc.push(s));
            }
        }
    }
}

// ---------------------------------------------------------------------------
// Output size

/// The number of nodes of an expression.
pub open spec fn expr_size(e: ExprV) -> nat
    decreases e, 1nat, 0nat,
{
    match e {
        ExprV::Call(_, args) => 1 + args_size(args, 0),
        _ => 1,
    }
}

/// The number of nodes of `args[i..]`.
pub open spec fn args_size(args: Seq<ExprV>, i: int) -> nat
    decreases args, 0nat, args.len() - i,
{
    if i < 0 || i >= args.len() {
        0
    } else {
        expr_size(args[i]) + args_size(args, i + 1)
    }
}

/// The number of nodes of a statement.
pub open spec fn stmt_size(s: StmtV) -> nat
    decreases s, 1nat, 0nat,
{
    match s {
        StmtV::Let(_) => 1,
        StmtV::Assign(_, e) => 1 + expr_size(e),
        StmtV::Expr(e) => 1 + expr_size(e),
        StmtV::If(c, th, el) => 1 + expr_size(c) + block_size(th, 0) + block_size(el, 0),
        StmtV::While(c, b) => 1 + expr_size(c) + block_size(b, 0),
    }
}

/// The number of nodes of `ss[i..]`.
pub open spec fn block_size(ss: Seq<StmtV>, i: int) -> nat
    decreases ss, 0nat, ss.len() - i,
{
    if i < 0 || i >= ss.len() {
        0
    } else {
        stmt_size(ss[i]) + block_size(ss, i + 1)
    }
}

/// The number of nodes of the functions `fs[i..]`.
pub open spec fn functions_size(fs: Seq<FunctionV>, i: int) -> nat
    decreases fs.len() - i,
{
    if i < 0 || i >= fs.len() {
        0
    } else {
        1 + block_size(fs[i].body, 0) + functions_size(fs, i + 1)
    }
}

/// Each statement is lowered once, a loop's body included (it is not unrolled):
/// the program's code has at most four instructions per node of its tree, and
/// four for the call of `main`.
pub proof fn lemma_output_size(p: ProgramV)
    ensures
        gen_program(p) matches Ok(code) ==> code.len() <= 4 + 4 * functions_size(p.functions, 0),
{
    lemma_size_functions(p, 0, 0, Seq::empty());
    if let Ok((u, body)) = gen_functions(p, 0, 0, Seq::empty()) {
        let st = GenState { scopes: Seq::empty(), uid: u, code: Seq::empty() };
        lemma_size_call_statement(p, st, "main"@, Seq::empty());
        assert(args_size(Seq::<ExprV>::empty(), 0) == 0);
    }
}

proof fn lemma_size_functions(p: ProgramV, i: int, uid: nat, acc: Seq<InstrV>)
    ensures
        gen_functions(p, i, uid, acc) matches Ok((_, c)) ==> c.len() <= acc.len() + 4
            * functions_size(p.functions, i),
    decreases p.functions.len() - i,
{
    if 0 <= i < p.functions.len() {
        let f = p.functions[i];
        if uid + 1 <= usize::MAX {
            let st = GenState {
                scopes: seq![ScopeV { names: Seq::empty(), mangle: mangle_of(uid) }],
                uid: uid + 1,
                code: Seq::empty(),
            };
            lemma_size_block(p, st, f.body, 0);
        }
        if let Ok((u, c)) = gen_function(p, f, uid) {
            lemma_size_functions(p, i + 1, u, acc + seq![InstrV::Label(f.name)] + c);
        }
    }
}

proof fn lemma_size_assign(p: ProgramV, st: GenState, target: Seq<char>, e: ExprV)
    ensures
        gen_assign(p, st, target, e) matches Ok(st2) ==> st2.code.len() <= st.code.len() + 4
            * expr_size(e),
    decreases e, 0nat, 0nat,
{
    if let ExprV::Call(f, args) = e {
        lemma_size_call(p, st, f, args, target);
    }
}

proof fn lemma_size_call(p: ProgramV, st: GenState, f: Seq<char>, args: Seq<ExprV>, target: Seq<char>)
    ensures
        gen_call(p, st, f, args, target) matches Ok(st2) ==> st2.code.len() <= st.code.len() + 4
            + 4 * args_size(args, 0),
    decreases args, 2nat, 0nat,
{
    if let Some(k) = intrinsic_of(f) {
        if counter_room(st, 1) {
            let st1 = push_scope(with_uid(st, st.uid + 1), mangle_of(st.uid));
            lemma_size_intrinsic(p, st1, k, f, args, target);
        }
    }
}

proof fn lemma_size_intrinsic(
    p: ProgramV,
    st: GenState,
    k: Intrinsic,
    f: Seq<char>,
    args: Seq<ExprV>,
    target: Seq<char>,
)
    ensures
        gen_intrinsic(p, st, k, f, args, target) matches Ok(st2) ==> st2.code.len() <= st.code.len()
            + 1 + 4 * args_size(args, 0),
    decreases args, 1nat, 0nat,
{
    lemma_size_tmps(p, st, args, 0, Seq::empty());
}

proof fn lemma_size_tmps(p: ProgramV, st: GenState, args: Seq<ExprV>, i: int, acc: Seq<Seq<char>>)
    ensures
        gen_tmps(p, st, args, i, acc) matches Ok((st2, _)) ==> st2.code.len() <= st.code.len() + 4
            * args_size(args, i),
    decreases args, 0nat, args.len() - i,
{
    if 0 <= i < args.len() {
        lemma_size_tmp(p, st, args[i]);
        if let Ok((st1, n)) = gen_tmp(p, st, args[i]) {
            lemma_size_tmps(p, st1, args, i + 1, acc.push(n));
        }
    }
}

proof fn lemma_size_tmp(p: ProgramV, st: GenState, e: ExprV)
    ensures
        gen_tmp(p, st, e) matches Ok((st2, _)) ==> st2.code.len() <= st.code.len() + 4 * expr_size(e),
    decreases e, 1nat, 0nat,
{
    if counter_room(st, 1) {
        let name = "tmp_"@ + decimal(st.uid);
        lemma_size_assign(p, declare(with_uid(st, st.uid + 1), name), name, e);
    }
}

proof fn lemma_size_call_statement(p: ProgramV, st: GenState, f: Seq<char>, args: Seq<ExprV>)
    ensures
        gen_call_statement(p, st, f, args) matches Ok(st2) ==> st2.code.len() <= st.code.len() + 4
            + 4 * args_size(args, 0),
{
    if counter_room(st, 1) {
        let st1 = declare(push_scope(with_uid(st, st.uid + 1), mangle_of(st.uid)), "blackhole"@);
        lemma_size_call(p, st1, f, args, "blackhole"@);
    }
}

proof fn lemma_size_stmt(p: ProgramV, st: GenState, s: StmtV)
    ensures
        gen_stmt(p, st, s) matches Ok(st2) ==> st2.code.len() <= st.code.len() + 4 * stmt_size(s),
    decreases s, 1nat, 0nat,
{
    match s {
        StmtV::Let(_) => {},
        StmtV::Assign(t, e) => {
            lemma_size_assign(p, st, t, e);
        },
        StmtV::Expr(e) => {
            if let ExprV::Call(f, args) = e {
                lemma_size_call_statement(p, st, f, args);
            }
        },
        StmtV::If(c, th, el) => {
            if counter_room(st, 6) {
                let u = st.uid;
                let else_label = "else_"@ + decimal(u);
                let cond = "cond_"@ + decimal(u + 1);
                let end_label = "endif_"@ + decimal(u + 5);
                let st1 = declare(push_scope(with_uid(st, u + 6), mangle_of(u + 2)), cond);
                lemma_size_assign(p, st1, cond, c);
                if let Ok(st2) = gen_assign(p, st1, cond, c) {
                    if let Some(cv) = resolve(p, st2.scopes, cond) {
                        let st3 = push_scope(
                            pop_scope(emit(st2, InstrV::JumpIfZero(else_label, cv))),
                            mangle_of(u + 3),
                        );
                        lemma_size_block(p, st3, th, 0);
                        if let Ok(st4) = gen_block(p, st3, th, 0) {
                            let st5 = push_scope(
                                emit(
                                    emit(pop_scope(st4), InstrV::Jump(end_label)),
                                    InstrV::Label(else_label),
                                ),
                                mangle_of(u + 4),
                            );
                            lemma_size_block(p, st5, el, 0);
                        }
                    }
                }
            }
        },
        StmtV::While(c, body) => {
            if counter_room(st, 4) {
                let u = st.uid;
                let cond = "cond_"@ + decimal(u + 2);
                let st1 = emit(
                    declare(push_scope(with_uid(st, u + 4), mangle_of(u + 3)), cond),
                    InstrV::Label(loop_begin(u)),
                );
                lemma_size_assign(p, st1, cond, c);
                if let Ok(st2) = gen_assign(p, st1, cond, c) {
                    if let Some(cv) = resolve(p, st2.scopes, cond) {
                        lemma_size_block(p, emit(st2, InstrV::JumpIfZero(loop_end(u + 1), cv)), body, 0);
                    }
                }
            }
        },
    }
}

proof fn lemma_size_block(p: ProgramV, st: GenState, ss: Seq<StmtV>, i: int)
    ensures
        gen_block(p, st, ss, i) matches Ok(st2) ==> st2.code.len() <= st.code.len() + 4 * block_size(
            ss,
            i,
        ),
    decreases ss, 0nat, ss.len() - i,
{
    if 0 <= i < ss.len() {
        lemma_size_stmt(p, st, ss[i]);
        if let Ok(st1) = gen_stmt(p, st, ss[i]) {
            lemma_size_block(p, st1, ss, i + 1);
        }
    }
}

// ---------------------------------------------------------------------------
// Expressions leave the open scopes as they were

/// `b`'s scopes are `a`'s, but for names declared in the innermost one.
pub open spec fn same_outer_scopes(a: GenState, b: GenState) -> bool {
    &&& a.scopes.len() == b.scopes.len()
    &&& a.scopes.len() > 0 ==> b.scopes.drop_last() == a.scopes.drop_last()
}

proof fn lemma_scopes_assign(p: ProgramV, st: GenState, target: Seq<char>, e: ExprV)
    ensures
        gen_assign(p, st, target, e) matches Ok(st2) ==> st2.scopes == st.scopes,
    decreases e, 0nat, 0nat,
{
    if let ExprV::Call(f, args) = e {
        lemma_scopes_call(p, st, f, args, target);
    }
}

proof fn lemma_scopes_call(p: ProgramV, st: GenState, f: Seq<char>, args: Seq<ExprV>, target: Seq<char>)
    ensures
        gen_call(p, st, f, args, target) matches Ok(st2) ==> st2.scopes == st.scopes,
    decreases args, 2nat, 0nat,
{
    if let Some(k) = intrinsic_of(f) {
        if counter_room(st, 1) {
            let st1 = push_scope(with_uid(st, st.uid + 1), mangle_of(st.uid));
            lemma_scopes_intrinsic(p, st1, k, f, args, target);
            if let Ok(st2) = gen_intrinsic(p, st1, k, f, args, target) {
                assert(st1.scopes.drop_last() =~= st.scopes);
            }
        }
    }
}

proof fn lemma_scopes_intrinsic(
    p: ProgramV,
    st: GenState,
    k: Intrinsic,
    f: Seq<char>,
    args: Seq<ExprV>,
    target: Seq<char>,
)
    ensures
        gen_intrinsic(p, st, k, f, args, target) matches Ok(st2) ==> same_outer_scopes(st, st2),
    decreases args, 1nat, 0nat,
{
    lemma_scopes_tmps(p, st, args, 0, Seq::empty());
}

proof fn lemma_scopes_tmps(p: ProgramV, st: GenState, args: Seq<ExprV>, i: int, acc: Seq<Seq<char>>)
    ensures
        gen_tmps(p, st, args, i, acc) matches Ok((st2, _)) ==> same_outer_scopes(st, st2),
    decreases args, 0nat, args.len() - i,
{
    if 0 <= i < args.len() {
        lemma_scopes_tmp(p, st, args[i]);
        if let Ok((st1, n)) = gen_tmp(p, st, args[i]) {
            lemma_scopes_tmps(p, st1, args, i + 1, acc.push(n));
        }
    }
}

proof fn lemma_scopes_tmp(p: ProgramV, st: GenState, e: ExprV)
    ensures
        gen_tmp(p, st, e) matches Ok((st2, _)) ==> same_outer_scopes(st, st2),
    decreases e, 1nat, 0nat,
{
    if counter_room(st, 1) {
        let name = "tmp_"@ + decimal(st.uid);
        let st1 = declare(with_uid(st, st.uid + 1), name);
        lemma_scopes_assign(p, st1, name, e);
        if st.scopes.len() > 0 {
            assert(st1.scopes.drop_last() =~= st.scopes.drop_last());
        }
    }
}

// ---------------------------------------------------------------------------
// Loop labels stay fresh

/// Whether `i` names `l` as a label or as a jump target.
pub open spec fn mentions(i: InstrV, l: Seq<char>) -> bool {
    match i {
        InstrV::Label(x) => x == l,
        InstrV::Jump(x) => x == l,
        InstrV::JumpIfZero(x, _) => x == l,
        _ => false,
    }
}

/// `i` mentions no loop label numbered below `u`.
pub open spec fn clean(i: InstrV, u: nat) -> bool {
    forall|k: nat| k < u ==> !mentions(i, #[trigger] loop_begin(k)) && !mentions(i, loop_end(k))
}

/// `b` extends `a`: the counter did not go back and the code only grew. Where no
/// function of `p` is named like a loop label, what was added mentions no loop
/// label numbered below `a`'s counter.
pub open spec fn frame(p: ProgramV, a: GenState, b: GenState) -> bool {
    &&& a.uid <= b.uid
    &&& a.code.len() <= b.code.len()
    &&& b.code.take(a.code.len() as int) == a.code
    &&& no_loop_named_functions(p) ==> forall|j: int|
        a.code.len() <= j < b.code.len() ==> clean(#[trigger] b.code[j], a.uid)
}

/// No declared function is named like a loop label.
pub open spec fn no_loop_named_functions(p: ProgramV) -> bool {
    forall|k: nat|
        lookup_function(p, #[trigger] loop_begin(k)) is None && lookup_function(p, loop_end(k)) is None
}

proof fn lemma_frame_trans(p: ProgramV, a: GenState, b: GenState, c: GenState)
    requires
        frame(p, a, b),
        frame(p, b, c),
    ensures
        frame(p, a, c),
{
    assert(c.code.take(a.code.len() as int) =~= a.code) by {
        assert(c.code.take(b.code.len() as int).take(a.code.len() as int) =~= c.code.take(
            a.code.len() as int,
        ));
    }
    if no_loop_named_functions(p) {
        assert forall|j: int| a.code.len() <= j < c.code.len() implies clean(#[trigger] c.code[j], a.uid) by {
            if j < b.code.len() {
                assert(c.code[j] == c.code.take(b.code.len() as int)[j]);
                assert(clean(b.code[j], a.uid));
            } else {
                assert(clean(c.code[j], b.uid));
            }
        }
    }
}

proof fn lemma_frame_same_code(p: ProgramV, a: GenState, b: GenState)
    requires
        a.uid <= b.uid,
        a.code == b.code,
    ensures
        frame(p, a, b),
{
    assert(b.code.take(a.code.len() as int) =~= a.code);
}

proof fn lemma_frame_emit(p: ProgramV, a: GenState, i: InstrV)
    requires
        no_loop_named_functions(p) ==> clean(i, a.uid),
    ensures
        frame(p, a, emit(a, i)),
{
    let b = emit(a, i);
    assert(b.code.take(a.code.len() as int) =~= a.code);
    if no_loop_named_functions(p) {
        assert forall|j: int| a.code.len() <= j < b.code.len() implies clean(#[trigger] b.code[j], a.uid) by {
            assert(j == a.code.len());
        }
    }
}

proof fn lemma_prefix_differs(a: Seq<char>, b: Seq<char>, x: Seq<char>, y: Seq<char>, k: int)
    requires
        0 <= k < a.len(),
        k < b.len(),
        a[k] != b[k],
    ensures
        a + x != b + y,
{
    assert((a + x)[k] == a[k]);
    assert((b + y)[k] == b[k]);
}

/// Labels of `if` lowering and of loops never coincide with another loop's labels.
proof fn lemma_label_names(k: nat, v: nat)
    ensures
        "else_"@ + decimal(v) != loop_begin(k),
        "else_"@ + decimal(v) != loop_end(k),
        "endif_"@ + decimal(v) != loop_begin(k),
        "endif_"@ + decimal(v) != loop_end(k),
        loop_begin(v) != loop_end(k),
        loop_end(v) != loop_begin(k),
        v != k ==> loop_begin(v) != loop_begin(k),
        v != k ==> loop_end(v) != loop_end(k),
{
    reveal_strlit("else_");
    reveal_strlit("endif_");
    reveal_strlit("while_begin_");
    reveal_strlit("while_end_");
    lemma_prefix_differs("else_"@, "while_begin_"@, decimal(v), decimal(k), 0);
    lemma_prefix_differs("else_"@, "while_end_"@, decimal(v), decimal(k), 0);
    lemma_prefix_differs("endif_"@, "while_begin_"@, decimal(v), decimal(k), 0);
    lemma_prefix_differs("endif_"@, "while_end_"@, decimal(v), decimal(k), 0);
    lemma_prefix_differs("while_begin_"@, "while_end_"@, decimal(v), decimal(k), 6);
    lemma_prefix_differs("while_end_"@, "while_begin_"@, decimal(v), decimal(k), 6);
    if v != k {
        lemma_numbered_distinct("while_begin_"@, v, k);
        lemma_numbered_distinct("while_end_"@, v, k);
    }
}

proof fn lemma_if_labels_clean(u: nat, v: nat)
    requires
        u <= v,
    ensures
        clean(InstrV::Label("else_"@ + decimal(v)), u),
        clean(InstrV::Label("endif_"@ + decimal(v)), u),
        clean(InstrV::Jump("endif_"@ + decimal(v)), u),
        forall|c: Seq<char>| #[trigger] clean(InstrV::JumpIfZero("else_"@ + decimal(v), c), u),
{
    assert forall|k: nat| k < u implies !mentions(InstrV::Label("else_"@ + decimal(v)), #[trigger] loop_begin(k))
        && !mentions(InstrV::Label("else_"@ + decimal(v)), loop_end(k)) by {
        lemma_label_names(k, v);
    }
    assert forall|k: nat| k < u implies !mentions(InstrV::Label("endif_"@ + decimal(v)), #[trigger] loop_begin(k))
        && !mentions(InstrV::Label("endif_"@ + decimal(v)), loop_end(k)) by {
        lemma_label_names(k, v);
    }
    assert forall|k: nat| k < u implies !mentions(InstrV::Jump("endif_"@ + decimal(v)), #[trigger] loop_begin(k))
        && !mentions(InstrV::Jump("endif_"@ + decimal(v)), loop_end(k)) by {
        lemma_label_names(k, v);
    }
    assert forall|c: Seq<char>| #[trigger] clean(InstrV::JumpIfZero("else_"@ + decimal(v), c), u) by {
        assert forall|k: nat| k < u implies !mentions(InstrV::JumpIfZero("else_"@ + decimal(v), c), #[trigger] loop_begin(k))
            && !mentions(InstrV::JumpIfZero("else_"@ + decimal(v), c), loop_end(k)) by {
            lemma_label_names(k, v);
        }
    }
}

proof fn lemma_loop_labels_clean(u: nat, v: nat)
    requires
        u <= v,
    ensures
        clean(InstrV::Label(loop_begin(v)), u),
        clean(InstrV::Label(loop_end(v + 1)), u),
        clean(InstrV::Jump(loop_begin(v)), u),
        forall|c: Seq<char>| #[trigger] clean(InstrV::JumpIfZero(loop_end(v + 1), c), u),
{
    assert forall|k: nat| k < u implies !mentions(InstrV::Label(loop_begin(v)), #[trigger] loop_begin(k))
        && !mentions(InstrV::Label(loop_begin(v)), loop_end(k)) by {
        lemma_label_names(k, v);
    }
    assert forall|k: nat| k < u implies !mentions(InstrV::Label(loop_end(v + 1)), #[trigger] loop_begin(k))
        && !mentions(InstrV::Label(loop_end(v + 1)), loop_end(k)) by {
        lemma_label_names(k, v + 1);
    }
    assert forall|k: nat| k < u implies !mentions(InstrV::Jump(loop_begin(v)), #[trigger] loop_begin(k))
        && !mentions(InstrV::Jump(loop_begin(v)), loop_end(k)) by {
        lemma_label_names(k, v);
    }
    assert forall|c: Seq<char>| #[trigger] clean(InstrV::JumpIfZero(loop_end(v + 1), c), u) by {
        assert forall|k: nat| k < u implies !mentions(InstrV::JumpIfZero(loop_end(v + 1), c), #[trigger] loop_begin(k))
            && !mentions(InstrV::JumpIfZero(loop_end(v + 1), c), loop_end(k)) by {
            lemma_label_names(k, v + 1);
        }
    }
}

proof fn lemma_frame_assign(p: ProgramV, st: GenState, target: Seq<char>, e: ExprV)
    ensures
        gen_assign(p, st, target, e) matches Ok(st2) ==> frame(p, st, st2),
    decreases e, 0nat, 0nat,
{
    match e {
        ExprV::Call(f, args) => {
            lemma_frame_call(p, st, f, args, target);
        },
        _ => {
            if let Ok(st2) = gen_assign(p, st, target, e) {
                let i = st2.code.last();
                assert(st2 == emit(st, i));
                lemma_frame_emit(p, st, i);
            }
        },
    }
}

proof fn lemma_frame_call(p: ProgramV, st: GenState, f: Seq<char>, args: Seq<ExprV>, target: Seq<char>)
    ensures
        gen_call(p, st, f, args, target) matches Ok(st2) ==> frame(p, st, st2),
    decreases args, 2nat, 0nat,
{
    match intrinsic_of(f) {
        Some(k) => if counter_room(st, 1) {
            let st0 = with_uid(st, st.uid + 1);
            let st1 = push_scope(st0, mangle_of(st.uid));
            lemma_frame_same_code(p, st, st1);
            lemma_frame_intrinsic(p, st1, k, f, args, target);
            if let Ok(st2) = gen_intrinsic(p, st1, k, f, args, target) {
                lemma_frame_trans(p, st, st1, st2);
                lemma_frame_same_code(p, st2, pop_scope(st2));
                lemma_frame_trans(p, st, st2, pop_scope(st2));
            }
        },
        None => {
            if let Ok(st2) = gen_call(p, st, f, args, target) {
                let d = st2.code.last()->SetVariable_0;
                let i1 = InstrV::Op("add"@, "ret_addr_"@ + f, "@counter"@, "1"@);
                let i2 = InstrV::Jump(f);
                let i3 = InstrV::SetVariable(d, f + "_result"@);
                if no_loop_named_functions(p) {
                    assert forall|k: nat| k < st.uid implies !mentions(i2, #[trigger] loop_begin(k))
                        && !mentions(i2, loop_end(k)) by {
                        assert(lookup_function(p, loop_begin(k)) is None);
                        assert(lookup_function(p, loop_end(k)) is None);
                    }
                }
                lemma_frame_emit(p, st, i1);
                lemma_frame_emit(p, emit(st, i1), i2);
                lemma_frame_trans(p, st, emit(st, i1), emit(emit(st, i1), i2));
                lemma_frame_emit(p, emit(emit(st, i1), i2), i3);
                lemma_frame_trans(p, st, emit(emit(st, i1), i2), st2);
            }
        },
    }
}

proof fn lemma_frame_intrinsic(
    p: ProgramV,
    st: GenState,
    k: Intrinsic,
    f: Seq<char>,
    args: Seq<ExprV>,
    target: Seq<char>,
)
    ensures
        gen_intrinsic(p, st, k, f, args, target) matches Ok(st2) ==> frame(p, st, st2),
    decreases args, 1nat, 0nat,
{
    lemma_frame_tmps(p, st, args, 0, Seq::empty());
    if let Ok(st2) = gen_intrinsic(p, st, k, f, args, target) {
        let i = st2.code.last();
        match gen_tmps(p, st, args, 0, Seq::empty()) {
            Ok((st1, _)) => {
                if k != Intrinsic::Radar && k != Intrinsic::Ubind {
                    assert(st2 == emit(st1, i));
                    lemma_frame_emit(p, st1, i);
                    lemma_frame_trans(p, st, st1, st2);
                } else {
                    assert(st2 == emit(st, i));
                    lemma_frame_emit(p, st, i);
                }
            },
            Err(_) => {
                assert(st2 == emit(st, i));
                lemma_frame_emit(p, st, i);
            },
        }
    }
}

proof fn lemma_frame_tmps(p: ProgramV, st: GenState, args: Seq<ExprV>, i: int, acc: Seq<Seq<char>>)
    ensures
        gen_tmps(p, st, args, i, acc) matches Ok((st2, _)) ==> frame(p, st, st2),
    decreases args, 0nat, args.len() - i,
{
    if i < 0 || i >= args.len() {
        lemma_frame_same_code(p, st, st);
    } else {
        lemma_frame_tmp(p, st, args[i]);
        if let Ok((st1, n)) = gen_tmp(p, st, args[i]) {
            lemma_frame_tmps(p, st1, args, i + 1, acc.push(n));
            if let Ok((st2, _)) = gen_tmps(p, st1, args, i + 1, acc.push(n)) {
                lemma_frame_trans(p, st, st1, st2);
            }
        }
    }
}

proof fn lemma_frame_tmp(p: ProgramV, st: GenState, e: ExprV)
    ensures
        gen_tmp(p, st, e) matches Ok((st2, _)) ==> frame(p, st, st2),
    decreases e, 1nat, 0nat,
{
    if counter_room(st, 1) {
        let name = "tmp_"@ + decimal(st.uid);
        let st1 = declare(with_uid(st, st.uid + 1), name);
        lemma_frame_same_code(p, st, st1);
        lemma_frame_assign(p, st1, name, e);
        if let Ok(st2) = gen_assign(p, st1, name, e) {
            lemma_frame_trans(p, st, st1, st2);
        }
    }
}

proof fn lemma_frame_call_statement(p: ProgramV, st: GenState, f: Seq<char>, args: Seq<ExprV>)
    ensures
        gen_call_statement(p, st, f, args) matches Ok(st2) ==> frame(p, st, st2),
{
    if counter_room(st, 1) {
        let st1 = declare(push_scope(with_uid(st, st.uid + 1), mangle_of(st.uid)), "blackhole"@);
        lemma_frame_same_code(p, st, st1);
        lemma_frame_call(p, st1, f, args, "blackhole"@);
        if let Ok(st2) = gen_call(p, st1, f, args, "blackhole"@) {
            lemma_frame_trans(p, st, st1, st2);
            lemma_frame_same_code(p, st2, pop_scope(st2));
            lemma_frame_trans(p, st, st2, pop_scope(st2));
        }
    }
}

proof fn lemma_frame_stmt(p: ProgramV, st: GenState, s: StmtV)
    ensures
        gen_stmt(p, st, s) matches Ok(st2) ==> frame(p, st, st2),
    decreases s, 1nat, 0nat,
{
    match s {
        StmtV::Let(n) => {
            lemma_frame_same_code(p, st, declare(st, n));
        },
        StmtV::Assign(t, e) => {
            lemma_frame_assign(p, st, t, e);
        },
        StmtV::Expr(e) => match e {
            ExprV::Call(f, args) => {
                lemma_frame_call_statement(p, st, f, args);
            },
            _ => {
                lemma_frame_same_code(p, st, st);
            },
        },
        StmtV::If(_, _, _) => {
            lemma_frame_if(p, st, s);
        },
        StmtV::While(_, _) => {
            lemma_frame_while(p, st, s);
        },
    }
}

proof fn lemma_frame_extend(p: ProgramV, a0: GenState, a: GenState, i: InstrV)
    requires
        frame(p, a0, a),
        no_loop_named_functions(p) ==> clean(i, a0.uid),
    ensures
        frame(p, a0, emit(a, i)),
{
    let b = emit(a, i);
    assert(b.code.take(a0.code.len() as int) =~= a.code.take(a0.code.len() as int));
    if no_loop_named_functions(p) {
        assert forall|j: int| a0.code.len() <= j < b.code.len() implies clean(#[trigger] b.code[j], a0.uid) by {
            if j < a.code.len() {
                assert(b.code[j] == a.code[j]);
            }
        }
    }
}

proof fn lemma_frame_scopes(p: ProgramV, a0: GenState, a: GenState, b: GenState)
    requires
        frame(p, a0, a),
        a.uid <= b.uid,
        a.code == b.code,
    ensures
        frame(p, a0, b),
{
    lemma_frame_same_code(p, a, b);
    lemma_frame_trans(p, a0, a, b);
}

proof fn lemma_frame_if(p: ProgramV, st: GenState, s: StmtV)
    requires
        s is If,
    ensures
        gen_stmt(p, st, s) matches Ok(st2) ==> frame(p, st, st2),
    decreases s, 0nat, 0nat,
{
    if let StmtV::If(c, th, el) = s {
        if counter_room(st, 6) {
            let u = st.uid;
            let else_label = "else_"@ + decimal(u);
            let cond = "cond_"@ + decimal(u + 1);
            let end_label = "endif_"@ + decimal(u + 5);
            let st1 = declare(push_scope(with_uid(st, u + 6), mangle_of(u + 2)), cond);
            lemma_frame_same_code(p, st, st1);
            lemma_frame_assign(p, st1, cond, c);
            lemma_if_labels_clean(u, u);
            lemma_if_labels_clean(u, u + 5);
            if let Ok(st2) = gen_assign(p, st1, cond, c) {
                lemma_frame_trans(p, st, st1, st2);
                if let Some(cv) = resolve(p, st2.scopes, cond) {
                    let e1 = emit(st2, InstrV::JumpIfZero(else_label, cv));
                    lemma_frame_extend(p, st, st2, InstrV::JumpIfZero(else_label, cv));
                    let st3 = push_scope(pop_scope(e1), mangle_of(u + 3));
                    lemma_frame_scopes(p, st, e1, st3);
                    lemma_frame_block(p, st3, th, 0);
                    if let Ok(st4) = gen_block(p, st3, th, 0) {
                        lemma_frame_trans(p, st, st3, st4);
                        let a = pop_scope(st4);
                        lemma_frame_scopes(p, st, st4, a);
                        let b = emit(a, InstrV::Jump(end_label));
                        lemma_frame_extend(p, st, a, InstrV::Jump(end_label));
                        let c2 = emit(b, InstrV::Label(else_label));
                        lemma_frame_extend(p, st, b, InstrV::Label(else_label));
                        let st5 = push_scope(c2, mangle_of(u + 4));
                        lemma_frame_scopes(p, st, c2, st5);
                        lemma_frame_block(p, st5, el, 0);
                        if let Ok(st6) = gen_block(p, st5, el, 0) {
                            lemma_frame_trans(p, st, st5, st6);
                            let d = pop_scope(st6);
                            lemma_frame_scopes(p, st, st6, d);
                            lemma_frame_extend(p, st, d, InstrV::Label(end_label));
                        }
                    }
                }
            }
        }
    }
}

proof fn lemma_frame_while(p: ProgramV, st: GenState, s: StmtV)
    requires
        s is While,
    ensures
        gen_stmt(p, st, s) matches Ok(st2) ==> frame(p, st, st2),
    decreases s, 0nat, 0nat,
{
    if let StmtV::While(c, body) = s {
        if counter_room(st, 4) {
            let u = st.uid;
            let begin = loop_begin(u);
            let end = loop_end(u + 1);
            let cond = "cond_"@ + decimal(u + 2);
            let st0 = declare(push_scope(with_uid(st, u + 4), mangle_of(u + 3)), cond);
            lemma_frame_same_code(p, st, st0);
            lemma_loop_labels_clean(u, u);
            let st1 = emit(st0, InstrV::Label(begin));
            lemma_frame_extend(p, st, st0, InstrV::Label(begin));
            lemma_frame_assign(p, st1, cond, c);
            if let Ok(st2) = gen_assign(p, st1, cond, c) {
                lemma_frame_trans(p, st, st1, st2);
                if let Some(cv) = resolve(p, st2.scopes, cond) {
                    let st3 = emit(st2, InstrV::JumpIfZero(end, cv));
                    lemma_frame_extend(p, st, st2, InstrV::JumpIfZero(end, cv));
                    lemma_frame_block(p, st3, body, 0);
                    if let Ok(st4) = gen_block(p, st3, body, 0) {
                        lemma_frame_trans(p, st, st3, st4);
                        let a = emit(st4, InstrV::Jump(begin));
                        lemma_frame_extend(p, st, st4, InstrV::Jump(begin));
                        let b = emit(a, InstrV::Label(end));
                        lemma_frame_extend(p, st, a, InstrV::Label(end));
                        lemma_frame_scopes(p, st, b, pop_scope(b));
                    }
                }
            }
        }
    }
}

proof fn lemma_frame_block(p: ProgramV, st: GenState, ss: Seq<StmtV>, i: int)
    ensures
        gen_block(p, st, ss, i) matches Ok(st2) ==> frame(p, st, st2),
    decreases ss, 0nat, ss.len() - i,
{
    if i < 0 || i >= ss.len() {
        lemma_frame_same_code(p, st, st);
    } else {
        lemma_frame_stmt(p, st, ss[i]);
        if let Ok(st1) = gen_stmt(p, st, ss[i]) {
            lemma_frame_block(p, st1, ss, i + 1);
            if let Ok(st2) = gen_block(p, st1, ss, i + 1) {
                lemma_frame_trans(p, st, st1, st2);
            }
        }
    }
}

} // verus!
