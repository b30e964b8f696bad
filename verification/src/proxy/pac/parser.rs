//! Recursive-descent parser for the PAC JavaScript subset. Precedence,
//! loosest first: `||`, `&&`, equality, relational, `+`, then unary `!`
//! and the primary expressions.

use crate::errors::NetworkError;
use crate::proxy::pac::ast::{
    args_view, expr_view, function_view, lemma_args_view_cons, lemma_stmts_cons_all_push,
    lemma_stmts_view_all, stmt_view, stmts_cons_all, stmts_view, ArgsV, BinOp, Expr, ExprV,
    FunctionDecl, FunctionV, Program, Stmt, StmtV, StmtsV,
};
use crate::proxy::pac::lexer::{lex, lex_step, tok_views, tokenize, LexStep, Tok, TokKind};
use vstd::prelude::*;

verus! {

pub type TokV = (TokKind, Seq<char>);

/// A parse of something of type `T`: the value and the position after it,
/// or the error message.
pub type PR<T> = Result<(T, int), Seq<char>>;

/// The position after the token at `p` (the last token is never passed).
pub open spec fn adv(ts: Seq<TokV>, p: int) -> int {
    if p + 1 < ts.len() {
        p + 1
    } else {
        p
    }
}

pub open spec fn kind(ts: Seq<TokV>, p: int) -> TokKind {
    ts[p].0
}

pub open spec fn is_kw(ts: Seq<TokV>, p: int, w: Seq<char>) -> bool {
    ts[p].0 == TokKind::Ident && ts[p].1 == w
}

pub open spec fn kind_name(k: TokKind) -> Seq<char> {
    match k {
        TokKind::Ident => "Ident"@,
        TokKind::Str => "Str"@,
        TokKind::Num => "Num"@,
        TokKind::LParen => "LParen"@,
        TokKind::RParen => "RParen"@,
        TokKind::LBrace => "LBrace"@,
        TokKind::RBrace => "RBrace"@,
        TokKind::Semi => "Semi"@,
        TokKind::Comma => "Comma"@,
        TokKind::Assign => "Assign"@,
        TokKind::EqEq => "EqEq"@,
        TokKind::NotEq => "NotEq"@,
        TokKind::Not => "Not"@,
        TokKind::AndAnd => "AndAnd"@,
        TokKind::OrOr => "OrOr"@,
        TokKind::Plus => "Plus"@,
        TokKind::Lt => "Lt"@,
        TokKind::Gt => "Gt"@,
        TokKind::Le => "Le"@,
        TokKind::Ge => "Ge"@,
        TokKind::Eof => "Eof"@,
    }
}

/// How a token is named in error messages: its kind, with the name, the
/// string contents (quoted) or the literal in brackets where it has one.
pub open spec fn desc(t: TokV) -> Seq<char> {
    match t.0 {
        TokKind::Ident => "Ident(\""@ + t.1 + "\")"@,
        TokKind::Str => "Str(\""@ + t.1 + "\")"@,
        TokKind::Num => "Num("@ + t.1 + ")"@,
        _ => kind_name(t.0),
    }
}

pub open spec fn expect_msg(want: TokKind, found: TokV) -> Seq<char> {
    "expected "@ + kind_name(want) + ", found "@ + desc(found) + " in PAC script"@
}

pub open spec fn ident_msg(found: TokV) -> Seq<char> {
    "expected identifier, found "@ + desc(found) + " in PAC script"@
}

/// The binary operator that token kind `k` stands for at precedence level
/// `lvl` (0 `||`, 1 `&&`, 2 equality, 3 relational, 4 `+`).
pub open spec fn binop_of(lvl: int, k: TokKind) -> Option<BinOp> {
    if lvl == 0 {
        if k == TokKind::OrOr { Some(BinOp::Or) } else { None }
    } else if lvl == 1 {
        if k == TokKind::AndAnd { Some(BinOp::And) } else { None }
    } else if lvl == 2 {
        if k == TokKind::EqEq {
            Some(BinOp::Eq)
        } else if k == TokKind::NotEq {
            Some(BinOp::NotEq)
        } else {
            None
        }
    } else if lvl == 3 {
        if k == TokKind::Lt {
            Some(BinOp::Lt)
        } else if k == TokKind::Gt {
            Some(BinOp::Gt)
        } else if k == TokKind::Le {
            Some(BinOp::Le)
        } else if k == TokKind::Ge {
            Some(BinOp::Ge)
        } else {
            None
        }
    } else {
        if k == TokKind::Plus { Some(BinOp::Add) } else { None }
    }
}

/// An expression at precedence level `lvl` (level 5 is a unary
/// expression): an operand, then any number of `op operand` at this
/// level, grouping to the left.
pub open spec fn plevel(ts: Seq<TokV>, p: int, lvl: int) -> PR<ExprV>
    decreases ts.len() - p, 30 - 2 * lvl,
{
    if !(0 <= p < ts.len() && 0 <= lvl <= 4) {
        Err(seq![])
    } else {
        match poperand(ts, p, lvl) {
            Err(m) => Err(m),
            Ok((l, q)) => if p <= q < ts.len() {
                ptail(ts, lvl, l, q)
            } else {
                Err(seq![])
            },
        }
    }
}

/// An operand of level `lvl`: an expression of the next level.
pub open spec fn poperand(ts: Seq<TokV>, p: int, lvl: int) -> PR<ExprV>
    decreases ts.len() - p, 29 - 2 * lvl,
{
    if !(0 <= p < ts.len() && 0 <= lvl <= 4) {
        Err(seq![])
    } else if lvl < 4 {
        plevel(ts, p, lvl + 1)
    } else {
        punary(ts, p)
    }
}

/// The rest of a level-`lvl` expression whose left part is `left`, at `q`.
pub open spec fn ptail(ts: Seq<TokV>, lvl: int, left: ExprV, q: int) -> PR<ExprV>
    decreases ts.len() - q, 29 - 2 * lvl,
{
    if !(0 <= q < ts.len() && 0 <= lvl <= 4) {
        Err(seq![])
    } else {
        match binop_of(lvl, ts[q].0) {
            None => Ok((left, q)),
            Some(op) => {
                let q1 = adv(ts, q);
                if q1 > q {
                    match poperand(ts, q1, lvl) {
                        Err(m) => Err(m),
                        Ok((r, q2)) => if q1 <= q2 < ts.len() {
                            ptail(ts, lvl, ExprV::Binary(op, Box::new(left), Box::new(r)), q2)
                        } else {
                            Err(seq![])
                        },
                    }
                } else {
                    Err(seq![])
                }
            },
        }
    }
}

pub open spec fn punary(ts: Seq<TokV>, p: int) -> PR<ExprV>
    decreases ts.len() - p, 20int,
{
    if !(0 <= p < ts.len()) {
        Err(seq![])
    } else if ts[p].0 == TokKind::Not {
        let q = adv(ts, p);
        if q > p {
            match punary(ts, q) {
                Err(m) => Err(m),
                Ok((e, r)) => Ok((ExprV::Not(Box::new(e)), r)),
            }
        } else {
            Err(seq![])
        }
    } else {
        pprimary(ts, p)
    }
}

pub open spec fn pprimary(ts: Seq<TokV>, p: int) -> PR<ExprV>
    decreases ts.len() - p, 19int,
{
    if !(0 <= p < ts.len()) {
        Err(seq![])
    } else {
        let t = ts[p];
        let q = adv(ts, p);
        if t.0 == TokKind::Str {
            Ok((ExprV::Str(t.1), q))
        } else if t.0 == TokKind::Num {
            Ok((ExprV::Num(t.1), q))
        } else if t.0 == TokKind::LParen {
            if q > p {
                match plevel(ts, q, 0) {
                    Err(m) => Err(m),
                    Ok((e, r)) => if 0 <= r < ts.len() && ts[r].0 == TokKind::RParen {
                        Ok((e, adv(ts, r)))
                    } else if 0 <= r < ts.len() {
                        Err(expect_msg(TokKind::RParen, ts[r]))
                    } else {
                        Err(seq![])
                    },
                }
            } else {
                Err(seq![])
            }
        } else if t.0 == TokKind::Ident {
            if t.1 == "true"@ {
                Ok((ExprV::Bool(true), q))
            } else if t.1 == "false"@ {
                Ok((ExprV::Bool(false), q))
            } else if ts[q].0 == TokKind::LParen {
                let r = adv(ts, q);
                if r > p {
                    match pargs(ts, r) {
                        Err(m) => Err(m),
                        Ok((args, u)) => if 0 <= u < ts.len() && ts[u].0 == TokKind::RParen {
                            Ok((ExprV::Call(t.1, args), adv(ts, u)))
                        } else if 0 <= u < ts.len() {
                            Err(expect_msg(TokKind::RParen, ts[u]))
                        } else {
                            Err(seq![])
                        },
                    }
                } else {
                    Err(seq![])
                }
            } else {
                Ok((ExprV::Ident(t.1), q))
            }
        } else {
            Err("unexpected token "@ + desc(t) + " in PAC expression"@)
        }
    }
}

/// A call's argument list, up to (not including) the closing parenthesis.
pub open spec fn pargs(ts: Seq<TokV>, r: int) -> PR<ArgsV>
    decreases ts.len() - r, 40int,
{
    if !(0 <= r < ts.len()) {
        Err(seq![])
    } else if ts[r].0 == TokKind::RParen {
        Ok((ArgsV::Nil, r))
    } else {
        pargs_list(ts, r)
    }
}

/// One or more comma-separated arguments.
pub open spec fn pargs_list(ts: Seq<TokV>, r: int) -> PR<ArgsV>
    decreases ts.len() - r, 39int,
{
    if !(0 <= r < ts.len()) {
        Err(seq![])
    } else {
        match plevel(ts, r, 0) {
            Err(m) => Err(m),
            Ok((e, s)) => if 0 <= s < ts.len() && ts[s].0 == TokKind::Comma {
                let s2 = adv(ts, s);
                if s2 > r {
                    match pargs_list(ts, s2) {
                        Err(m) => Err(m),
                        Ok((rest, u)) => Ok((ArgsV::Cons(Box::new(e), Box::new(rest)), u)),
                    }
                } else {
                    Err(seq![])
                }
            } else {
                Ok((ArgsV::Cons(Box::new(e), Box::new(ArgsV::Nil)), s))
            },
        }
    }
}

/// An expression: the loosest level.
pub open spec fn pexpr(ts: Seq<TokV>, p: int) -> PR<ExprV> {
    plevel(ts, p, 0)
}

/// One optional `;` at `r`.
pub open spec fn skip_semi(ts: Seq<TokV>, r: int) -> int {
    if 0 <= r < ts.len() && ts[r].0 == TokKind::Semi {
        adv(ts, r)
    } else {
        r
    }
}

pub open spec fn pstmt(ts: Seq<TokV>, p: int) -> PR<StmtV>
    decreases ts.len() - p, 60int,
{
    if !(0 <= p < ts.len()) {
        Err(seq![])
    } else {
        let t = ts[p];
        if is_kw(ts, p, "var"@) {
            let q = adv(ts, p);
            let q2 = adv(ts, q);
            if ts[q].0 != TokKind::Ident {
                Err(ident_msg(ts[q]))
            } else if ts[q2].0 == TokKind::Assign {
                let q3 = adv(ts, q2);
                if q3 > p {
                    match pexpr(ts, q3) {
                        Err(m) => Err(m),
                        Ok((e, r)) => Ok((StmtV::VarDecl(ts[q].1, Some(e)), skip_semi(ts, r))),
                    }
                } else {
                    Err(seq![])
                }
            } else {
                Ok((StmtV::VarDecl(ts[q].1, None), skip_semi(ts, q2)))
            }
        } else if is_kw(ts, p, "return"@) {
            let q = adv(ts, p);
            if ts[q].0 == TokKind::Semi || ts[q].0 == TokKind::RBrace {
                Ok((StmtV::Return(None), skip_semi(ts, q)))
            } else if q > p {
                match pexpr(ts, q) {
                    Err(m) => Err(m),
                    Ok((e, r)) => Ok((StmtV::Return(Some(e)), skip_semi(ts, r))),
                }
            } else {
                Err(seq![])
            }
        } else if is_kw(ts, p, "if"@) {
            let q = adv(ts, p);
            if ts[q].0 != TokKind::LParen {
                Err(expect_msg(TokKind::LParen, ts[q]))
            } else {
                let q1 = adv(ts, q);
                if q1 > p {
                    match pexpr(ts, q1) {
                        Err(m) => Err(m),
                        Ok((c, r)) => if !(0 <= r < ts.len()) {
                            Err(seq![])
                        } else if ts[r].0 != TokKind::RParen {
                            Err(expect_msg(TokKind::RParen, ts[r]))
                        } else {
                            let r1 = adv(ts, r);
                            if r1 > p {
                                match pblock(ts, r1) {
                                    Err(m) => Err(m),
                                    Ok((then_b, s)) => if !(0 <= s < ts.len()) {
                                        Err(seq![])
                                    } else if is_kw(ts, s, "else"@) {
                                        let s1 = adv(ts, s);
                                        if s1 <= p {
                                            Err(seq![])
                                        } else if is_kw(ts, s1, "if"@) {
                                            match pstmt(ts, s1) {
                                                Err(m) => Err(m),
                                                Ok((st, u)) => Ok(
                                                    (
                                                        StmtV::If(
                                                            c,
                                                            then_b,
                                                            StmtsV::Cons(Box::new(st), Box::new(StmtsV::Nil)),
                                                        ),
                                                        u,
                                                    ),
                                                ),
                                            }
                                        } else {
                                            match pblock(ts, s1) {
                                                Err(m) => Err(m),
                                                Ok((else_b, u)) => Ok((StmtV::If(c, then_b, else_b), u)),
                                            }
                                        }
                                    } else {
                                        Ok((StmtV::If(c, then_b, StmtsV::Nil), s))
                                    },
                                }
                            } else {
                                Err(seq![])
                            }
                        },
                    }
                } else {
                    Err(seq![])
                }
            }
        } else if t.0 == TokKind::Ident {
            if p + 1 < ts.len() && ts[p + 1].0 == TokKind::Assign {
                let q = adv(ts, adv(ts, p));
                if q > p {
                    match pexpr(ts, q) {
                        Err(m) => Err(m),
                        Ok((e, r)) => Ok((StmtV::Assign(t.1, e), skip_semi(ts, r))),
                    }
                } else {
                    Err(seq![])
                }
            } else {
                match pexpr(ts, p) {
                    Err(m) => Err(m),
                    Ok((e, r)) => Ok((StmtV::ExprStmt(e), skip_semi(ts, r))),
                }
            }
        } else {
            Err("unexpected token "@ + desc(t) + " in PAC script"@)
        }
    }
}

/// `{ statements }`.
pub open spec fn pblock(ts: Seq<TokV>, p: int) -> PR<StmtsV>
    decreases ts.len() - p, 62int,
{
    if !(0 <= p < ts.len()) {
        Err(seq![])
    } else if ts[p].0 != TokKind::LBrace {
        Err(expect_msg(TokKind::LBrace, ts[p]))
    } else {
        let q = adv(ts, p);
        if q > p {
            pblock_tail(ts, q)
        } else {
            Err(seq![])
        }
    }
}

/// The statements of a block from `q` to its closing brace (consumed).
pub open spec fn pblock_tail(ts: Seq<TokV>, q: int) -> PR<StmtsV>
    decreases ts.len() - q, 61int,
{
    if !(0 <= q < ts.len()) {
        Err(seq![])
    } else if ts[q].0 == TokKind::RBrace {
        Ok((StmtsV::Nil, adv(ts, q)))
    } else if ts[q].0 == TokKind::Eof {
        Err("unexpected end of PAC script (unclosed block)"@)
    } else {
        match pstmt(ts, q) {
            Err(m) => Err(m),
            Ok((s, r)) => if q < r < ts.len() {
                match pblock_tail(ts, r) {
                    Err(m) => Err(m),
                    Ok((rest, u)) => Ok((StmtsV::Cons(Box::new(s), Box::new(rest)), u)),
                }
            } else {
                Err(seq![])
            },
        }
    }
}

/// A function's parameter names, from the first one to the closing
/// parenthesis (not consumed).
pub open spec fn pparams(ts: Seq<TokV>, q: int) -> PR<Seq<Seq<char>>>
    decreases ts.len() - q,
{
    if !(0 <= q < ts.len()) {
        Err(seq![])
    } else if ts[q].0 != TokKind::Ident {
        Err(ident_msg(ts[q]))
    } else {
        let q1 = adv(ts, q);
        if ts[q1].0 == TokKind::Comma {
            let q2 = adv(ts, q1);
            if q2 > q {
                match pparams(ts, q2) {
                    Err(m) => Err(m),
                    Ok((ps, r)) => Ok((seq![ts[q].1] + ps, r)),
                }
            } else {
                Err(seq![])
            }
        } else {
            Ok((seq![ts[q].1], q1))
        }
    }
}

/// `function name(params) { body }` at `p`, with `function` at `p`.
pub open spec fn pfunction(ts: Seq<TokV>, p: int) -> PR<(Seq<char>, FunctionV)> {
    if !(0 <= p < ts.len()) {
        Err(seq![])
    } else {
        let q = adv(ts, p);
        let q2 = adv(ts, q);
        if ts[q].0 != TokKind::Ident {
            Err(ident_msg(ts[q]))
        } else if ts[q2].0 != TokKind::LParen {
            Err(expect_msg(TokKind::LParen, ts[q2]))
        } else {
            let q3 = adv(ts, q2);
            let params: PR<Seq<Seq<char>>> = if ts[q3].0 != TokKind::RParen {
                pparams(ts, q3)
            } else {
                Ok((seq![], q3))
            };
            match params {
                Err(m) => Err(m),
                Ok((ps, r)) => if !(0 <= r < ts.len()) {
                    Err(seq![])
                } else if ts[r].0 != TokKind::RParen {
                    Err(expect_msg(TokKind::RParen, ts[r]))
                } else {
                    match pblock(ts, adv(ts, r)) {
                        Err(m) => Err(m),
                        Ok((body, s)) => Ok(((ts[q].1, FunctionV { params: ps, body }), s)),
                    }
                },
            }
        }
    }
}

/// The declarations and top-level statements from `p` to `Eof`.
pub open spec fn pprogram(ts: Seq<TokV>, p: int) -> Result<
    (Seq<(Seq<char>, FunctionV)>, Seq<StmtV>),
    Seq<char>,
>
    decreases ts.len() - p,
{
    if !(0 <= p < ts.len()) {
        Err(seq![])
    } else if ts[p].0 == TokKind::Eof {
        Ok((seq![], seq![]))
    } else if is_kw(ts, p, "function"@) {
        match pfunction(ts, p) {
            Err(m) => Err(m),
            Ok((f, s)) => if p < s < ts.len() {
                match pprogram(ts, s) {
                    Err(m) => Err(m),
                    Ok((fs, gs)) => Ok((seq![f] + fs, gs)),
                }
            } else {
                Err(seq![])
            },
        }
    } else {
        match pstmt(ts, p) {
            Err(m) => Err(m),
            Ok((st, s)) => if p < s < ts.len() {
                match pprogram(ts, s) {
                    Err(m) => Err(m),
                    Ok((fs, gs)) => Ok((fs, seq![st] + gs)),
                }
            } else {
                Err(seq![])
            },
        }
    }
}

// ---- Implementation -----------------------------------------------------------

pub open spec fn tv(toks: &Vec<Tok>) -> Seq<TokV> {
    tok_views(toks@)
}

/// A token list as the tokenizer produces it: not empty, ending in `Eof`.
pub open spec fn well_formed(toks: &Vec<Tok>) -> bool {
    toks.len() > 0 && toks@[toks.len() - 1].kind == TokKind::Eof
}

/// `r` is the parse `s` of an expression starting at `pos`.
pub open spec fn expr_result(r: Result<(Expr, usize), NetworkError>, s: PR<ExprV>, pos: int, n: int) -> bool {
    match s {
        Ok((v, q)) => (r matches Ok((e, q2)) && expr_view(e) == v && q2 == q && pos < q < n),
        Err(m) => (r matches Err(NetworkError::Parse(mm)) && mm@ == m),
    }
}

fn kind_name_exec(k: TokKind) -> (s: &'static str)
    ensures
        s@ == kind_name(k),
{
    match k {
        TokKind::Ident => "Ident",
        TokKind::Str => "Str",
        TokKind::Num => "Num",
        TokKind::LParen => "LParen",
        TokKind::RParen => "RParen",
        TokKind::LBrace => "LBrace",
        TokKind::RBrace => "RBrace",
        TokKind::Semi => "Semi",
        TokKind::Comma => "Comma",
        TokKind::Assign => "Assign",
        TokKind::EqEq => "EqEq",
        TokKind::NotEq => "NotEq",
        TokKind::Not => "Not",
        TokKind::AndAnd => "AndAnd",
        TokKind::OrOr => "OrOr",
        TokKind::Plus => "Plus",
        TokKind::Lt => "Lt",
        TokKind::Gt => "Gt",
        TokKind::Le => "Le",
        TokKind::Ge => "Ge",
        TokKind::Eof => "Eof",
    }
}

fn desc_exec(t: &Tok) -> (s: String)
    ensures
        s@ == desc(t.view()),
{
    match t.kind {
        TokKind::Ident => crate::errors::join3("Ident(\"", t.text.as_str(), "\")"),
        TokKind::Str => crate::errors::join3("Str(\"", t.text.as_str(), "\")"),
        TokKind::Num => crate::errors::join3("Num(", t.text.as_str(), ")"),
        _ => String::from_str(kind_name_exec(t.kind)),
    }
}

fn expect_error(want: TokKind, found: &Tok) -> (e: NetworkError)
    ensures
        e matches NetworkError::Parse(m) && m@ == expect_msg(want, found.view()),
{
    let mut m = crate::errors::join3("expected ", kind_name_exec(want), ", found ");
    let d = desc_exec(found);
    m.append(d.as_str());
    m.append(" in PAC script");
    NetworkError::Parse(m)
}

fn ident_error(found: &Tok) -> (e: NetworkError)
    ensures
        e matches NetworkError::Parse(m) && m@ == ident_msg(found.view()),
{
    let d = desc_exec(found);
    NetworkError::Parse(crate::errors::join3("expected identifier, found ", d.as_str(), " in PAC script"))
}

fn adv_exec(toks: &Vec<Tok>, p: usize) -> (q: usize)
    requires
        p < toks.len(),
    ensures
        q == adv(tv(toks), p as int),
        q < toks.len(),
{
    if p + 1 < toks.len() {
        p + 1
    } else {
        p
    }
}

proof fn lemma_tv(toks: &Vec<Tok>, p: int)
    requires
        0 <= p < toks.len(),
    ensures
        tv(toks).len() == toks.len(),
        tv(toks)[p] == toks@[p].view(),
{
}

proof fn lemma_not_last(toks: &Vec<Tok>, p: int)
    requires
        well_formed(toks),
        0 <= p < toks.len(),
        toks@[p].kind != TokKind::Eof,
    ensures
        adv(tv(toks), p) == p + 1,
{
}

fn binop_exec(lvl: u8, k: TokKind) -> (r: Option<BinOp>)
    ensures
        r == binop_of(lvl as int, k),
{
    if lvl == 0 {
        if k == TokKind::OrOr { Some(BinOp::Or) } else { None }
    } else if lvl == 1 {
        if k == TokKind::AndAnd { Some(BinOp::And) } else { None }
    } else if lvl == 2 {
        if k == TokKind::EqEq {
            Some(BinOp::Eq)
        } else if k == TokKind::NotEq {
            Some(BinOp::NotEq)
        } else {
            None
        }
    } else if lvl == 3 {
        if k == TokKind::Lt {
            Some(BinOp::Lt)
        } else if k == TokKind::Gt {
            Some(BinOp::Gt)
        } else if k == TokKind::Le {
            Some(BinOp::Le)
        } else if k == TokKind::Ge {
            Some(BinOp::Ge)
        } else {
            None
        }
    } else {
        if k == TokKind::Plus { Some(BinOp::Add) } else { None }
    }
}

fn parse_level(toks: &Vec<Tok>, pos: usize, lvl: u8) -> (r: Result<(Expr, usize), NetworkError>)
    requires
        well_formed(toks),
        pos < toks.len(),
        lvl <= 4,
    ensures
        expr_result(r, plevel(tv(toks), pos as int, lvl as int), pos as int, toks.len() as int),
    decreases toks.len() - pos, 30 - 2 * lvl,
{
    proof {
        lemma_tv(toks, pos as int);
    }
    let (left, q) = parse_operand(toks, pos, lvl)?;
    parse_tail(toks, lvl, left, q, pos)
}

fn parse_operand(toks: &Vec<Tok>, pos: usize, lvl: u8) -> (r: Result<(Expr, usize), NetworkError>)
    requires
        well_formed(toks),
        pos < toks.len(),
        lvl <= 4,
    ensures
        expr_result(r, poperand(tv(toks), pos as int, lvl as int), pos as int, toks.len() as int),
    decreases toks.len() - pos, 29 - 2 * lvl,
{
    proof {
        lemma_tv(toks, pos as int);
    }
    if lvl < 4 {
        parse_level(toks, pos, lvl + 1)
    } else {
        parse_unary(toks, pos)
    }
}

/// The rest of a level-`lvl` expression whose left part `left` started at
/// `start`.
fn parse_tail(toks: &Vec<Tok>, lvl: u8, left: Expr, q: usize, start: usize) -> (r: Result<(Expr, usize), NetworkError>)
    requires
        well_formed(toks),
        start < q < toks.len(),
        lvl <= 4,
    ensures
        expr_result(r, ptail(tv(toks), lvl as int, expr_view(left), q as int), start as int, toks.len() as int),
    decreases toks.len() - q, 29 - 2 * lvl,
{
    proof {
        lemma_tv(toks, q as int);
    }
    match binop_exec(lvl, toks[q].kind) {
        None => Ok((left, q)),
        Some(op) => {
            proof {
                lemma_not_last(toks, q as int);
            }
            let q1 = q + 1;
            let (right, q2) = parse_operand(toks, q1, lvl)?;
            let ghost lv = expr_view(left);
            let ghost rv = expr_view(right);
            let e = Expr::Binary(op, Box::new(left), Box::new(right));
            assert(expr_view(e) == ExprV::Binary(op, Box::new(lv), Box::new(rv)));
            parse_tail(toks, lvl, e, q2, start)
        },
    }
}

fn parse_unary(toks: &Vec<Tok>, pos: usize) -> (r: Result<(Expr, usize), NetworkError>)
    requires
        well_formed(toks),
        pos < toks.len(),
    ensures
        expr_result(r, punary(tv(toks), pos as int), pos as int, toks.len() as int),
    decreases toks.len() - pos, 20int,
{
    proof {
        lemma_tv(toks, pos as int);
    }
    if toks[pos].kind == TokKind::Not {
        proof {
            lemma_not_last(toks, pos as int);
        }
        let (e, r) = parse_unary(toks, pos + 1)?;
        let ghost ev = expr_view(e);
        let x = Expr::Not(Box::new(e));
        assert(expr_view(x) == ExprV::Not(Box::new(ev)));
        Ok((x, r))
    } else {
        parse_primary(toks, pos)
    }
}

fn text_of(toks: &Vec<Tok>, p: usize) -> (s: String)
    requires
        p < toks.len(),
    ensures
        s@ == toks@[p as int].text@,
{
    toks[p].text.clone()
}

fn parse_primary(toks: &Vec<Tok>, pos: usize) -> (r: Result<(Expr, usize), NetworkError>)
    requires
        well_formed(toks),
        pos < toks.len(),
    ensures
        expr_result(r, pprimary(tv(toks), pos as int), pos as int, toks.len() as int),
    decreases toks.len() - pos, 19int,
{
    proof {
        lemma_tv(toks, pos as int);
        reveal_strlit("true");
        reveal_strlit("false");
    }
    let k = toks[pos].kind;
    if k == TokKind::Eof {
        let d = desc_exec(&toks[pos]);
        return Err(NetworkError::Parse(crate::errors::join3("unexpected token ", d.as_str(), " in PAC expression")));
    }
    proof {
        lemma_not_last(toks, pos as int);
    }
    let q = pos + 1;
    proof {
        lemma_tv(toks, q as int);
    }
    if k == TokKind::Str {
        return Ok((Expr::Str(text_of(toks, pos)), q));
    }
    if k == TokKind::Num {
        return Ok((Expr::Num(text_of(toks, pos)), q));
    }
    if k == TokKind::LParen {
        let (e, r) = parse_level(toks, q, 0)?;
        proof {
            lemma_tv(toks, r as int);
        }
        if toks[r].kind == TokKind::RParen {
            proof {
                lemma_not_last(toks, r as int);
            }
            return Ok((e, r + 1));
        } else {
            return Err(expect_error(TokKind::RParen, &toks[r]));
        }
    }
    if k == TokKind::Ident {
        if crate::text::str_eq(toks[pos].text.as_str(), "true") {
            return Ok((Expr::Bool(true), q));
        }
        if crate::text::str_eq(toks[pos].text.as_str(), "false") {
            return Ok((Expr::Bool(false), q));
        }
        if toks[q].kind == TokKind::LParen {
            proof {
                lemma_not_last(toks, q as int);
            }
            let r = q + 1;
            let (args, u) = parse_args(toks, r)?;
            proof {
                lemma_tv(toks, u as int);
            }
            if toks[u].kind == TokKind::RParen {
                proof {
                    lemma_not_last(toks, u as int);
                }
                let name = text_of(toks, pos);
                return Ok((Expr::Call(name, args), u + 1));
            } else {
                return Err(expect_error(TokKind::RParen, &toks[u]));
            }
        }
        return Ok((Expr::Ident(text_of(toks, pos)), q));
    }
    let d = desc_exec(&toks[pos]);
    Err(NetworkError::Parse(crate::errors::join3("unexpected token ", d.as_str(), " in PAC expression")))
}

pub open spec fn args_result(r: Result<(Vec<Expr>, usize), NetworkError>, s: PR<ArgsV>, pos: int, n: int) -> bool {
    match s {
        Ok((v, q)) => (r matches Ok((a, q2)) && args_view(a, 0) == v && q2 == q && pos <= q < n),
        Err(m) => (r matches Err(NetworkError::Parse(mm)) && mm@ == m),
    }
}

fn parse_args(toks: &Vec<Tok>, pos: usize) -> (r: Result<(Vec<Expr>, usize), NetworkError>)
    requires
        well_formed(toks),
        pos < toks.len(),
    ensures
        args_result(r, pargs(tv(toks), pos as int), pos as int, toks.len() as int),
    decreases toks.len() - pos, 40int,
{
    proof {
        lemma_tv(toks, pos as int);
    }
    if toks[pos].kind == TokKind::RParen {
        let v: Vec<Expr> = Vec::new();
        return Ok((v, pos));
    }
    parse_args_list(toks, pos)
}

fn parse_args_list(toks: &Vec<Tok>, pos: usize) -> (r: Result<(Vec<Expr>, usize), NetworkError>)
    requires
        well_formed(toks),
        pos < toks.len(),
    ensures
        args_result(r, pargs_list(tv(toks), pos as int), pos as int, toks.len() as int),
    decreases toks.len() - pos, 39int,
{
    let (e, s) = parse_level(toks, pos, 0)?;
    proof {
        lemma_tv(toks, s as int);
    }
    let ghost ev = expr_view(e);
    if toks[s].kind == TokKind::Comma {
        proof {
            lemma_not_last(toks, s as int);
        }
        let (mut rest, u) = parse_args_list(toks, s + 1)?;
        let ghost rest_v = rest@;
        let ghost rest_vec = rest;
        let mut v: Vec<Expr> = Vec::new();
        v.push(e);
        v.append(&mut rest);
        proof {
            assert(v@ =~= seq![v@[0]] + rest_vec@);
            lemma_args_view_cons(v@[0], rest_vec, v, 0);
        }
        Ok((v, u))
    } else {
        let mut v: Vec<Expr> = Vec::new();
        v.push(e);
        proof {
            assert(args_view(v, 1) == ArgsV::Nil);
        }
        Ok((v, s))
    }
}

pub open spec fn stmt_result(r: Result<(Stmt, usize), NetworkError>, s: PR<StmtV>, pos: int, n: int) -> bool {
    match s {
        Ok((v, q)) => (r matches Ok((st, q2)) && stmt_view(st) == v && q2 == q && pos < q < n),
        Err(m) => (r matches Err(NetworkError::Parse(mm)) && mm@ == m),
    }
}

pub open spec fn block_result(r: Result<(Vec<Stmt>, usize), NetworkError>, s: PR<StmtsV>, pos: int, n: int) -> bool {
    match s {
        Ok((v, q)) => (r matches Ok((b, q2)) && stmts_view(b, 0) == v && q2 == q && pos < q < n),
        Err(m) => (r matches Err(NetworkError::Parse(mm)) && mm@ == m),
    }
}

fn skip_semi_exec(toks: &Vec<Tok>, r: usize) -> (q: usize)
    requires
        well_formed(toks),
        r < toks.len(),
    ensures
        q == skip_semi(tv(toks), r as int),
        r <= q < toks.len(),
{
    proof {
        lemma_tv(toks, r as int);
    }
    if toks[r].kind == TokKind::Semi {
        proof {
            lemma_not_last(toks, r as int);
        }
        r + 1
    } else {
        r
    }
}

fn is_kw_exec(toks: &Vec<Tok>, p: usize, w: &str) -> (b: bool)
    requires
        p < toks.len(),
    ensures
        b == is_kw(tv(toks), p as int, w@),
{
    proof {
        lemma_tv(toks, p as int);
    }
    toks[p].kind == TokKind::Ident && crate::text::str_eq(toks[p].text.as_str(), w)
}

fn parse_stmt(toks: &Vec<Tok>, pos: usize) -> (r: Result<(Stmt, usize), NetworkError>)
    requires
        well_formed(toks),
        pos < toks.len(),
    ensures
        stmt_result(r, pstmt(tv(toks), pos as int), pos as int, toks.len() as int),
    decreases toks.len() - pos, 60int,
{
    proof {
        lemma_tv(toks, pos as int);
    }
    if is_kw_exec(toks, pos, "var") {
        proof {
            lemma_not_last(toks, pos as int);
        }
        let q = pos + 1;
        proof {
            lemma_tv(toks, q as int);
        }
        if toks[q].kind != TokKind::Ident {
            return Err(ident_error(&toks[q]));
        }
        proof {
            lemma_not_last(toks, q as int);
        }
        let q2 = q + 1;
        proof {
            lemma_tv(toks, q2 as int);
        }
        let name = text_of(toks, q);
        if toks[q2].kind == TokKind::Assign {
            proof {
                lemma_not_last(toks, q2 as int);
            }
            let (e, r) = parse_level(toks, q2 + 1, 0)?;
            let ghost ev = expr_view(e);
            let st = Stmt::VarDecl(name, Some(e));
            assert(stmt_view(st) == StmtV::VarDecl(toks@[q as int].text@, Some(ev)));
            return Ok((st, skip_semi_exec(toks, r)));
        }
        let st = Stmt::VarDecl(name, None);
        return Ok((st, skip_semi_exec(toks, q2)));
    }
    if is_kw_exec(toks, pos, "return") {
        proof {
            lemma_not_last(toks, pos as int);
        }
        let q = pos + 1;
        proof {
            lemma_tv(toks, q as int);
        }
        if toks[q].kind == TokKind::Semi || toks[q].kind == TokKind::RBrace {
            return Ok((Stmt::Return(None), skip_semi_exec(toks, q)));
        }
        let (e, r) = parse_level(toks, q, 0)?;
        let ghost ev = expr_view(e);
        let st = Stmt::Return(Some(e));
        assert(stmt_view(st) == StmtV::Return(Some(ev)));
        return Ok((st, skip_semi_exec(toks, r)));
    }
    if is_kw_exec(toks, pos, "if") {
        proof {
            lemma_not_last(toks, pos as int);
        }
        let q = pos + 1;
        proof {
            lemma_tv(toks, q as int);
        }
        if toks[q].kind != TokKind::LParen {
            return Err(expect_error(TokKind::LParen, &toks[q]));
        }
        proof {
            lemma_not_last(toks, q as int);
        }
        let (c, r) = parse_level(toks, q + 1, 0)?;
        proof {
            lemma_tv(toks, r as int);
        }
        if toks[r].kind != TokKind::RParen {
            return Err(expect_error(TokKind::RParen, &toks[r]));
        }
        proof {
            lemma_not_last(toks, r as int);
        }
        let (then_b, s) = parse_block(toks, r + 1)?;
        proof {
            lemma_tv(toks, s as int);
        }
        let ghost cv = expr_view(c);
        let ghost tbv = stmts_view(then_b, 0);
        if is_kw_exec(toks, s, "else") {
            proof {
                lemma_not_last(toks, s as int);
            }
            let s1 = s + 1;
            if is_kw_exec(toks, s1, "if") {
                let (st, u) = parse_stmt(toks, s1)?;
                let ghost sv = stmt_view(st);
                let mut els: Vec<Stmt> = Vec::new();
                els.push(st);
                let x = Stmt::If(c, then_b, els);
                proof {
                    assert(stmts_view(els, 1) == StmtsV::Nil);
                    assert(stmts_view(els, 0) == StmtsV::Cons(Box::new(sv), Box::new(StmtsV::Nil)));
                }
                return Ok((x, u));
            }
            let (else_b, u) = parse_block(toks, s1)?;
            let x = Stmt::If(c, then_b, else_b);
            return Ok((x, u));
        }
        let els: Vec<Stmt> = Vec::new();
        proof {
            assert(stmts_view(els, 0) == StmtsV::Nil);
        }
        let x = Stmt::If(c, then_b, els);
        return Ok((x, s));
    }
    if toks[pos].kind == TokKind::Ident {
        if pos + 1 < toks.len() && toks[pos + 1].kind == TokKind::Assign {
            proof {
                lemma_tv(toks, pos + 1);
                lemma_not_last(toks, pos as int);
                lemma_not_last(toks, pos + 1);
            }
            let name = text_of(toks, pos);
            let (e, r) = parse_level(toks, pos + 2, 0)?;
            let ghost ev = expr_view(e);
            let st = Stmt::Assign(name, e);
            assert(stmt_view(st) == StmtV::Assign(toks@[pos as int].text@, ev));
            return Ok((st, skip_semi_exec(toks, r)));
        }
        let (e, r) = parse_level(toks, pos, 0)?;
        let ghost ev = expr_view(e);
        let st = Stmt::ExprStmt(e);
        assert(stmt_view(st) == StmtV::ExprStmt(ev));
        return Ok((st, skip_semi_exec(toks, r)));
    }
    let d = desc_exec(&toks[pos]);
    Err(NetworkError::Parse(crate::errors::join3("unexpected token ", d.as_str(), " in PAC script")))
}

/// `acc` (in order) put in front of the statements of a successful parse.
pub open spec fn block_prefixed(acc: Seq<StmtV>, r: PR<StmtsV>) -> PR<StmtsV> {
    match r {
        Ok((rest, u)) => Ok((stmts_cons_all(acc, rest), u)),
        Err(m) => Err(m),
    }
}

fn parse_block(toks: &Vec<Tok>, pos: usize) -> (r: Result<(Vec<Stmt>, usize), NetworkError>)
    requires
        well_formed(toks),
        pos < toks.len(),
    ensures
        block_result(r, pblock(tv(toks), pos as int), pos as int, toks.len() as int),
    decreases toks.len() - pos, 62int,
{
    proof {
        lemma_tv(toks, pos as int);
    }
    if toks[pos].kind != TokKind::LBrace {
        return Err(expect_error(TokKind::LBrace, &toks[pos]));
    }
    proof {
        lemma_not_last(toks, pos as int);
    }
    let start = pos + 1;
    let mut q = start;
    let mut out: Vec<Stmt> = Vec::new();
    let ghost ts = tv(toks);
    proof {
        assert(out@.map_values(|s: Stmt| stmt_view(s)) =~= Seq::<StmtV>::empty());
        match pblock_tail(ts, q as int) {
            Ok((rest, u)) => {},
            Err(m) => {},
        }
    }
    while toks[q].kind != TokKind::RBrace
        invariant
            well_formed(toks),
            ts == tv(toks),
            pos < start <= q < toks.len(),
            pblock(ts, pos as int) == pblock_tail(ts, start as int),
            pblock_tail(ts, start as int) == block_prefixed(
                out@.map_values(|s: Stmt| stmt_view(s)),
                pblock_tail(ts, q as int),
            ),
        decreases toks.len() - q,
    {
        proof {
            lemma_tv(toks, q as int);
        }
        if toks[q].kind == TokKind::Eof {
            return Err(NetworkError::Parse(String::from_str("unexpected end of PAC script (unclosed block)")));
        }
        let (st, r) = parse_stmt(toks, q)?;
        let ghost acc = out@.map_values(|s: Stmt| stmt_view(s));
        let ghost sv = stmt_view(st);
        out.push(st);
        proof {
            assert(out@.map_values(|s: Stmt| stmt_view(s)) =~= acc.push(sv));
            match pblock_tail(ts, r as int) {
                Ok((rest, u)) => {
                    lemma_stmts_cons_all_push(acc, sv, rest);
                },
                Err(m) => {},
            }
        }
        q = r;
    }
    proof {
        lemma_tv(toks, q as int);
        lemma_not_last(toks, q as int);
        lemma_stmts_view_all(out, 0);
        assert(out@.subrange(0, out.len() as int) =~= out@);
    }
    Ok((out, q + 1))
}

pub open spec fn names_view(v: Seq<String>) -> Seq<Seq<char>> {
    v.map_values(|p: String| p@)
}

fn parse_params(toks: &Vec<Tok>, q: usize) -> (r: Result<(Vec<String>, usize), NetworkError>)
    requires
        well_formed(toks),
        q < toks.len(),
    ensures
        match pparams(tv(toks), q as int) {
            Ok((ps, u)) => (r matches Ok((v, u2)) && names_view(v@) == ps && u2 == u && q < u < toks.len()),
            Err(m) => (r matches Err(NetworkError::Parse(mm)) && mm@ == m),
        },
    decreases toks.len() - q,
{
    proof {
        lemma_tv(toks, q as int);
    }
    if toks[q].kind != TokKind::Ident {
        return Err(ident_error(&toks[q]));
    }
    proof {
        lemma_not_last(toks, q as int);
    }
    let q1 = q + 1;
    proof {
        lemma_tv(toks, q1 as int);
    }
    let name = text_of(toks, q);
    if toks[q1].kind == TokKind::Comma {
        proof {
            lemma_not_last(toks, q1 as int);
        }
        let (mut rest, u) = parse_params(toks, q1 + 1)?;
        let ghost rv = names_view(rest@);
        let ghost nv = name@;
        let mut v: Vec<String> = Vec::new();
        v.push(name);
        v.append(&mut rest);
        assert(names_view(v@) =~= seq![nv] + rv);
        return Ok((v, u));
    }
    let mut v: Vec<String> = Vec::new();
    v.push(name);
    assert(names_view(v@) =~= seq![toks@[q as int].text@]);
    Ok((v, q1))
}

pub open spec fn function_entry_view(e: (String, FunctionDecl)) -> (Seq<char>, FunctionV) {
    (e.0@, function_view(e.1))
}

fn parse_function(toks: &Vec<Tok>, p: usize) -> (r: Result<((String, FunctionDecl), usize), NetworkError>)
    requires
        well_formed(toks),
        p < toks.len(),
        toks@[p as int].kind != TokKind::Eof,
    ensures
        match pfunction(tv(toks), p as int) {
            Ok((f, u)) => (r matches Ok((e, u2)) && function_entry_view(e) == f && u2 == u && p < u < toks.len()),
            Err(m) => (r matches Err(NetworkError::Parse(mm)) && mm@ == m),
        },
{
    proof {
        lemma_tv(toks, p as int);
        lemma_not_last(toks, p as int);
    }
    let q = p + 1;
    proof {
        lemma_tv(toks, q as int);
    }
    if toks[q].kind != TokKind::Ident {
        return Err(ident_error(&toks[q]));
    }
    proof {
        lemma_not_last(toks, q as int);
    }
    let q2 = q + 1;
    proof {
        lemma_tv(toks, q2 as int);
    }
    if toks[q2].kind != TokKind::LParen {
        return Err(expect_error(TokKind::LParen, &toks[q2]));
    }
    proof {
        lemma_not_last(toks, q2 as int);
    }
    let q3 = q2 + 1;
    proof {
        lemma_tv(toks, q3 as int);
    }
    let (params, r) = if toks[q3].kind != TokKind::RParen {
        parse_params(toks, q3)?
    } else {
        let v: Vec<String> = Vec::new();
        assert(names_view(v@) =~= Seq::<Seq<char>>::empty());
        (v, q3)
    };
    proof {
        lemma_tv(toks, r as int);
    }
    if toks[r].kind != TokKind::RParen {
        return Err(expect_error(TokKind::RParen, &toks[r]));
    }
    proof {
        lemma_not_last(toks, r as int);
    }
    let (body, s) = parse_block(toks, r + 1)?;
    let name = text_of(toks, q);
    Ok(((name, FunctionDecl { params, body }), s))
}

/// Functions and globals found so far, put in front of a successful parse
/// of the rest.
pub open spec fn program_prefixed(
    fs: Seq<(Seq<char>, FunctionV)>,
    gs: Seq<StmtV>,
    r: Result<(Seq<(Seq<char>, FunctionV)>, Seq<StmtV>), Seq<char>>,
) -> Result<(Seq<(Seq<char>, FunctionV)>, Seq<StmtV>), Seq<char>> {
    match r {
        Ok((f2, g2)) => Ok((fs + f2, gs + g2)),
        Err(m) => Err(m),
    }
}

impl Program {
    /// The declarations (in order) and the top-level statements.
    pub open spec fn view(self) -> (Seq<(Seq<char>, FunctionV)>, Seq<StmtV>) {
        (
            self.functions@.map_values(|e: (String, FunctionDecl)| function_entry_view(e)),
            self.globals@.map_values(|s: Stmt| stmt_view(s)),
        )
    }

    /// Index of the declaration of `name` that is in force: the last one.
    pub fn find_function(&self, name: &str) -> (r: Option<usize>)
        ensures
            match r {
                Some(i) => i < self.functions.len() && self.functions@[i as int].0@ == name@
                    && forall|j: int| i < j < self.functions.len() ==> self.functions@[j].0@ != name@,
                None => forall|j: int| 0 <= j < self.functions.len() ==> self.functions@[j].0@ != name@,
            },
    {
        let mut i = self.functions.len();
        while i > 0
            invariant
                i <= self.functions.len(),
                forall|j: int| i <= j < self.functions.len() ==> self.functions@[j].0@ != name@,
            decreases i,
        {
            if crate::text::str_eq(self.functions[i - 1].0.as_str(), name) {
                return Some(i - 1);
            }
            i -= 1;
        }
        None
    }
}

pub proof fn lemma_lex_ends_with_eof(cs: Seq<char>, i: int)
    ensures
        lex(cs, i) matches Ok(s) ==> s.len() > 0 && s.last().0 == TokKind::Eof,
    decreases cs.len() - i,
{
    if 0 <= i < cs.len() {
        match crate::proxy::pac::lexer::lex_step(cs, i) {
            crate::proxy::pac::lexer::LexStep::Skip(j) => {
                if i < j <= cs.len() {
                    lemma_lex_ends_with_eof(cs, j);
                }
            },
            crate::proxy::pac::lexer::LexStep::Emit(k, t, j) => {
                if i < j <= cs.len() {
                    lemma_lex_ends_with_eof(cs, j);
                }
            },
            crate::proxy::pac::lexer::LexStep::Fail(m) => {},
        }
    }
}

/// Parses a PAC script: its tokens, then the program.
#[verifier::rlimit(60)]
pub fn parse(src: &str) -> (r: Result<Program, NetworkError>)
    ensures
        match lex(src@, 0) {
            Err(m) => (r matches Err(NetworkError::Parse(mm)) && mm@ == m),
            Ok(ts) => match pprogram(ts, 0) {
                Ok(v) => (r matches Ok(prog) && prog.view() == v),
                Err(m) => (r matches Err(NetworkError::Parse(mm)) && mm@ == m),
            },
        },
{
    let toks = tokenize(src)?;
    proof {
        lemma_lex_ends_with_eof(src@, 0);
        let ts = tv(&toks);
        assert(ts.len() == toks.len());
        assert(ts.last() == toks@[toks.len() - 1].view());
    }
    let ghost ts = tv(&toks);
    let mut functions: Vec<(String, FunctionDecl)> = Vec::new();
    let mut globals: Vec<Stmt> = Vec::new();
    let mut p: usize = 0;
    proof {
        assert(functions@.map_values(|e: (String, FunctionDecl)| function_entry_view(e)) =~= Seq::<(Seq<char>, FunctionV)>::empty());
        assert(globals@.map_values(|s: Stmt| stmt_view(s)) =~= Seq::<StmtV>::empty());
        match pprogram(ts, 0) {
            Ok((a, b)) => {
                assert(Seq::<(Seq<char>, FunctionV)>::empty() + a =~= a);
                assert(Seq::<StmtV>::empty() + b =~= b);
            },
            Err(_) => {},
        }
    }
    while toks[p].kind != TokKind::Eof
        invariant
            well_formed(&toks),
            ts == tv(&toks),
            lex(src@, 0) == Ok::<Seq<TokV>, Seq<char>>(ts),
            p < toks.len(),
            pprogram(ts, 0) == program_prefixed(
                functions@.map_values(|e: (String, FunctionDecl)| function_entry_view(e)),
                globals@.map_values(|s: Stmt| stmt_view(s)),
                pprogram(ts, p as int),
            ),
        decreases toks.len() - p,
    {
        proof {
            lemma_tv(&toks, p as int);
        }
        let ghost fs = functions@.map_values(|e: (String, FunctionDecl)| function_entry_view(e));
        let ghost gs = globals@.map_values(|s: Stmt| stmt_view(s));
        if is_kw_exec(&toks, p, "function") {
            let (f, s) = parse_function(&toks, p)?;
            let ghost fv = function_entry_view(f);
            functions.push(f);
            proof {
                assert(functions@.map_values(|e: (String, FunctionDecl)| function_entry_view(e)) =~= fs.push(fv));
                match pprogram(ts, s as int) {
                    Ok((a, b)) => {
                        assert(fs + (seq![fv] + a) =~= fs.push(fv) + a);
                    },
                    Err(_) => {},
                }
            }
            p = s;
        } else {
            let (st, s) = parse_stmt(&toks, p)?;
            let ghost sv = stmt_view(st);
            globals.push(st);
            proof {
                assert(globals@.map_values(|s: Stmt| stmt_view(s)) =~= gs.push(sv));
                match pprogram(ts, s as int) {
                    Ok((a, b)) => {
                        assert(gs + (seq![sv] + b) =~= gs.push(sv) + b);
                    },
                    Err(_) => {},
                }
            }
            p = s;
        }
    }
    proof {
        lemma_tv(&toks, p as int);
        let fs = functions@.map_values(|e: (String, FunctionDecl)| function_entry_view(e));
        let gs = globals@.map_values(|s: Stmt| stmt_view(s));
        assert(fs + Seq::<(Seq<char>, FunctionV)>::empty() =~= fs);
        assert(gs + Seq::<StmtV>::empty() =~= gs);
    }
    Ok(Program { functions, globals })
}

// ---- Laws --------------------------------------------------------------------

/// The token that spells operator `op` in a script.
pub open spec fn op_token(op: BinOp) -> TokKind {
    match op {
        BinOp::Or => TokKind::OrOr,
        BinOp::And => TokKind::AndAnd,
        BinOp::Eq => TokKind::EqEq,
        BinOp::NotEq => TokKind::NotEq,
        BinOp::Lt => TokKind::Lt,
        BinOp::Gt => TokKind::Gt,
        BinOp::Le => TokKind::Le,
        BinOp::Ge => TokKind::Ge,
        BinOp::Add => TokKind::Plus,
    }
}

/// The precedence level of operator `op`: `||`, `&&`, equality,
/// relational, `+`, from loosest to tightest.
pub open spec fn op_level(op: BinOp) -> int {
    match op {
        BinOp::Or => 0,
        BinOp::And => 1,
        BinOp::Eq | BinOp::NotEq => 2,
        BinOp::Lt | BinOp::Gt | BinOp::Le | BinOp::Ge => 3,
        BinOp::Add => 4,
    }
}

/// Each operator token stands for the operator of the same name, at that
/// operator's level, and for nothing else: `!=` is `NotEq`, `>` is `Gt`,
/// `<=` is `Le`, `>=` is `Ge`, and so on.
pub proof fn lemma_operator_tokens(lvl: int, k: TokKind, op: BinOp)
    requires
        0 <= lvl <= 4,
    ensures
        binop_of(op_level(op), op_token(op)) == Some(op),
        binop_of(lvl, k) == Some(op) ==> k == op_token(op) && lvl == op_level(op),
        binop_of(lvl, k) is None <==> forall|o: BinOp| !(#[trigger] op_token(o) == k && op_level(o) == lvl),
{
    if binop_of(lvl, k) is None {
        assert forall|o: BinOp| !(#[trigger] op_token(o) == k && op_level(o) == lvl) by {
            if op_token(o) == k && op_level(o) == lvl {
                assert(binop_of(op_level(o), op_token(o)) == Some(o));
            }
        }
    } else {
        let o = binop_of(lvl, k)->0;
        assert(op_token(o) == k && op_level(o) == lvl);
    }
}

/// An operator between two operands, with no further operator of its
/// level after them, parses to the binary expression of the operator that
/// its token names, with the operands in order: `a != b` is
/// `Binary(NotEq, a, b)`, `a >= b` is `Binary(Ge, a, b)`.
pub proof fn lemma_binary_expression(ts: Seq<TokV>, left: ExprV, q: int, op: BinOp, right: ExprV, q2: int)
    requires
        0 <= q,
        q + 1 < ts.len(),
        ts[q].0 == op_token(op),
        poperand(ts, q + 1, op_level(op)) == Ok::<(ExprV, int), Seq<char>>((right, q2)),
        q + 1 <= q2 < ts.len(),
        forall|o: BinOp| op_level(o) == op_level(op) ==> ts[q2].0 != #[trigger] op_token(o),
    ensures
        ptail(ts, op_level(op), left, q) == Ok::<(ExprV, int), Seq<char>>(
            (ExprV::Binary(op, Box::new(left), Box::new(right)), q2),
        ),
{
    let lvl = op_level(op);
    lemma_operator_tokens(lvl, ts[q].0, op);
    lemma_operator_tokens(lvl, ts[q2].0, op);
    assert(adv(ts, q) == q + 1);
    let e = ExprV::Binary(op, Box::new(left), Box::new(right));
    assert(ptail(ts, lvl, e, q2) == Ok::<(ExprV, int), Seq<char>>((e, q2)));
}

/// How operator `op` is written in a script.
pub open spec fn op_spelling(op: BinOp) -> Seq<char> {
    match op {
        BinOp::Or => seq!['|', '|'],
        BinOp::And => seq!['&', '&'],
        BinOp::Eq => seq!['=', '='],
        BinOp::NotEq => seq!['!', '='],
        BinOp::Lt => seq!['<'],
        BinOp::Gt => seq!['>'],
        BinOp::Le => seq!['<', '='],
        BinOp::Ge => seq!['>', '='],
        BinOp::Add => seq!['+'],
    }
}

/// Where a script spells operator `op` (a one-character `<` or `>` not
/// followed by `=`), the tokenizer reads the token that stands for `op`:
/// `!=` is read as the token for `NotEq`, `>=` as the one for `Ge`.
pub proof fn lemma_operator_spelling(cs: Seq<char>, i: int, op: BinOp)
    requires
        0 <= i,
        i + op_spelling(op).len() <= cs.len(),
        cs.subrange(i, i + op_spelling(op).len()) == op_spelling(op),
        (op == BinOp::Lt || op == BinOp::Gt) ==> !(i + 1 < cs.len() && cs[i + 1] == '='),
    ensures
        lex_step(cs, i) == LexStep::Emit(op_token(op), seq![], i + op_spelling(op).len()),
{
    let w = op_spelling(op);
    assert(cs[i] == cs.subrange(i, i + w.len())[0]);
    if w.len() == 2 {
        assert(cs[i + 1] == cs.subrange(i, i + w.len())[1]);
    }
}

} // verus!
