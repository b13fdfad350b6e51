//! Expression parsing by precedence climbing, lowest precedence
//! first: assignment, `||`, `&&`, bitwise `& | ^`, equality,
//! relational, additive, multiplicative, unary prefix, postfix,
//! primary. All levels are left-associative except assignment, which
//! associates to the right.
//!
//! Between two operands `&` is bitwise AND (not address-of), and the
//! bitwise operators bind looser than arithmetic: `a & b + c` parses
//! as `a & (b + c)`.

use vstd::prelude::*;
use vstd::string::StringExecFns;
use crate::ast::{AssignOp, BinaryOp, Expr, ExprModel, PostfixOp, PrefixOp, expr_model, exprs_model};
use crate::token::{SpannedToken, Token, TokenModel};
use crate::parse_error::{ParseResult, ParserErrorModel};
use crate::parser::{Parser, span_at, tok_at, token_desc};

verus! {


/// The result of parsing one expression production: the expression's
/// image and the position just past it, or the first error.
///
/// The models leave a branch unspecified (`arbitrary()`) wherever a
/// sub-parse would have to return an out-of-range or non-advancing
/// position; the parser's contracts prove those branches unreachable.
pub type ExprParse = Result<(ExprModel, int), ParserErrorModel>;

/// The model of [`Parser::expect`]: consumes `expected` or reports
/// what stands in its place.
pub open spec fn expect_m(
    toks: Seq<SpannedToken>,
    i: int,
    expected: TokenModel,
) -> Result<int, ParserErrorModel> {
    if tok_at(toks, i) == expected {
        Ok(
            if i < toks.len() {
                i + 1
            } else {
                i
            },
        )
    } else if tok_at(toks, i) is EOF {
        Err(
            ParserErrorModel::UnexpectedEOF {
                expected: token_desc(expected),
                line: span_at(toks, i).0,
                col: span_at(toks, i).1,
            },
        )
    } else {
        Err(
            ParserErrorModel::UnexpectedToken {
                expected,
                found: tok_at(toks, i),
                line: span_at(toks, i).0,
                col: span_at(toks, i).1,
            },
        )
    }
}

/// The assignment operator a token denotes, if any.
pub open spec fn assign_op_of(t: TokenModel) -> Option<AssignOp> {
    match t {
        TokenModel::Assign => Some(AssignOp::Assign),
        TokenModel::PlusAssign => Some(AssignOp::PlusAssign),
        TokenModel::MinusAssign => Some(AssignOp::MinusAssign),
        TokenModel::AsteriskAssign => Some(AssignOp::MulAssign),
        TokenModel::SlashAssign => Some(AssignOp::DivAssign),
        TokenModel::ModuloAssign => Some(AssignOp::RemAssign),
        TokenModel::BitAndAssign => Some(AssignOp::BitAndAssign),
        TokenModel::BitOrAssign => Some(AssignOp::BitOrAssign),
        TokenModel::BitXorAssign => Some(AssignOp::BitXorAssign),
        _ => None,
    }
}

/// The prefix operator a token denotes, if any.
pub open spec fn prefix_op_of(t: TokenModel) -> Option<PrefixOp> {
    match t {
        TokenModel::Not => Some(PrefixOp::Not),
        TokenModel::Minus => Some(PrefixOp::Neg),
        TokenModel::Ampersand => Some(PrefixOp::Address),
        TokenModel::Asterisk => Some(PrefixOp::Deref),
        TokenModel::Increment => Some(PrefixOp::PreInc),
        TokenModel::Decrement => Some(PrefixOp::PreDec),
        _ => None,
    }
}

/// The binary operator a token denotes at precedence level `lvl`, if
/// any. Level 1 is `||`; level 7, the tightest, is multiplicative.
pub open spec fn level_op_of(lvl: int, t: TokenModel) -> Option<BinaryOp> {
    if lvl == 1 {
        match t {
            TokenModel::Or => Some(BinaryOp::Or),
            _ => None,
        }
    } else if lvl == 2 {
        match t {
            TokenModel::And => Some(BinaryOp::And),
            _ => None,
        }
    } else if lvl == 3 {
        match t {
            TokenModel::Ampersand => Some(BinaryOp::BitAnd),
            TokenModel::BitOr => Some(BinaryOp::BitOr),
            TokenModel::BitXor => Some(BinaryOp::BitXor),
            _ => None,
        }
    } else if lvl == 4 {
        match t {
            TokenModel::Equal => Some(BinaryOp::Eq),
            TokenModel::NotEqual => Some(BinaryOp::Ne),
            _ => None,
        }
    } else if lvl == 5 {
        match t {
            TokenModel::Lt => Some(BinaryOp::Lt),
            TokenModel::Le => Some(BinaryOp::Le),
            TokenModel::Gt => Some(BinaryOp::Gt),
            TokenModel::Ge => Some(BinaryOp::Ge),
            _ => None,
        }
    } else if lvl == 6 {
        match t {
            TokenModel::Plus => Some(BinaryOp::Add),
            TokenModel::Minus => Some(BinaryOp::Sub),
            _ => None,
        }
    } else {
        match t {
            TokenModel::Asterisk => Some(BinaryOp::Mul),
            TokenModel::Slash => Some(BinaryOp::Div),
            TokenModel::Percent => Some(BinaryOp::Rem),
            _ => None,
        }
    }
}

/// The model of a whole expression: assignment, the loosest level.
pub open spec fn sp_expr(toks: Seq<SpannedToken>, i: int) -> ExprParse
    decreases toks.len() - i, 60int,
{
    sp_assign(toks, i)
}

/// `assignment ::= level1 ( ASSIGN_OP assignment )?`, grouping to the
/// right.
pub open spec fn sp_assign(toks: Seq<SpannedToken>, i: int) -> ExprParse
    decreases toks.len() - i, 58int,
{
    match sp_bin(toks, i, 1) {
        Err(e) => Err(e),
        Ok((lhs, j)) => if !(i <= j <= toks.len()) {
            arbitrary()
        } else {
            match assign_op_of(tok_at(toks, j)) {
                None => Ok((lhs, j)),
                Some(op) => match sp_assign(toks, j + 1) {
                    Err(e) => Err(e),
                    Ok((rhs, k)) => Ok(
                        (
                            ExprModel::Assignment {
                                left: Box::new(lhs),
                                op,
                                right: Box::new(rhs),
                            },
                            k,
                        ),
                    ),
                },
            }
        },
    }
}

/// One left-associative binary level: the next-tighter level,
/// followed by any number of this level's operators.
pub open spec fn sp_bin(toks: Seq<SpannedToken>, i: int, lvl: int) -> ExprParse
    decreases toks.len() - i, 56int - 4 * (if lvl < 7 {
        lvl
    } else {
        7
    }),
{
    let sub = if lvl >= 7 {
        sp_unary(toks, i)
    } else {
        sp_bin(toks, i, lvl + 1)
    };
    match sub {
        Err(e) => Err(e),
        Ok((e0, j)) => if !(i <= j <= toks.len()) {
            arbitrary()
        } else {
            sp_bin_loop(toks, j, lvl, e0)
        },
    }
}

/// The operator-operand repetition of one binary level, folding to
/// the left onto `acc`.
pub open spec fn sp_bin_loop(toks: Seq<SpannedToken>, i: int, lvl: int, acc: ExprModel) -> ExprParse
    decreases toks.len() - i, 54int - 4 * (if lvl < 7 {
        lvl
    } else {
        7
    }),
{
    match level_op_of(lvl, tok_at(toks, i)) {
        None => Ok((acc, i)),
        Some(op) => {
            let sub = if lvl >= 7 {
                sp_unary(toks, i + 1)
            } else {
                sp_bin(toks, i + 1, lvl + 1)
            };
            match sub {
                Err(e) => Err(e),
                Ok((rhs, j)) => if !(i < j <= toks.len()) {
                    arbitrary()
                } else {
                    sp_bin_loop(
                        toks,
                        j,
                        lvl,
                        ExprModel::BinaryOp { lhs: Box::new(acc), op, rhs: Box::new(rhs) },
                    )
                },
            }
        },
    }
}

/// `unary ::= PREFIX_OP unary | postfix`.
pub open spec fn sp_unary(toks: Seq<SpannedToken>, i: int) -> ExprParse
    decreases toks.len() - i, 20int,
{
    match prefix_op_of(tok_at(toks, i)) {
        None => sp_postfix(toks, i),
        Some(op) => match sp_unary(toks, i + 1) {
            Err(e) => Err(e),
            Ok((rhs, j)) => Ok((ExprModel::UnaryPrefixOp { op, rhs: Box::new(rhs) }, j)),
        },
    }
}

/// `postfix ::= primary ( call | index | "++" | "--" )*`.
pub open spec fn sp_postfix(toks: Seq<SpannedToken>, i: int) -> ExprParse
    decreases toks.len() - i, 18int,
{
    match sp_primary(toks, i) {
        Err(e) => Err(e),
        Ok((e0, j)) => if !(i <= j <= toks.len()) {
            arbitrary()
        } else {
            sp_post_loop(toks, j, e0)
        },
    }
}

/// The postfix repetition, folding calls, indexings and postfix
/// operators onto `acc`.
pub open spec fn sp_post_loop(toks: Seq<SpannedToken>, i: int, acc: ExprModel) -> ExprParse
    decreases toks.len() - i, 17int,
{
    let t = tok_at(toks, i);
    if t is LParen {
        if tok_at(toks, i + 1) is RParen {
            sp_post_loop(
                toks,
                i + 2,
                ExprModel::Call { func: Box::new(acc), args: Seq::empty() },
            )
        } else {
            match sp_args(toks, i + 1, Seq::empty()) {
                Err(e) => Err(e),
                Ok((args, j)) => if !(i < j <= toks.len()) {
                    arbitrary()
                } else {
                    match expect_m(toks, j, TokenModel::RParen) {
                        Err(e) => Err(e),
                        Ok(k) => sp_post_loop(
                            toks,
                            k,
                            ExprModel::Call { func: Box::new(acc), args },
                        ),
                    }
                },
            }
        }
    } else if t is LBracket {
        match sp_expr(toks, i + 1) {
            Err(e) => Err(e),
            Ok((idx, j)) => if !(i < j <= toks.len()) {
                arbitrary()
            } else {
                match expect_m(toks, j, TokenModel::RBracket) {
                    Err(e) => Err(e),
                    Ok(k) => sp_post_loop(
                        toks,
                        k,
                        ExprModel::ArrayIndex { array: Box::new(acc), index: Box::new(idx) },
                    ),
                }
            },
        }
    } else if t is Increment {
        sp_post_loop(
            toks,
            i + 1,
            ExprModel::UnaryPostfixOp { lhs: Box::new(acc), op: PostfixOp::PostInc },
        )
    } else if t is Decrement {
        sp_post_loop(
            toks,
            i + 1,
            ExprModel::UnaryPostfixOp { lhs: Box::new(acc), op: PostfixOp::PostDec },
        )
    } else {
        Ok((acc, i))
    }
}

/// A comma-separated argument list, at least one argument.
pub open spec fn sp_args(toks: Seq<SpannedToken>, i: int, acc: Seq<ExprModel>) -> Result<
    (Seq<ExprModel>, int),
    ParserErrorModel,
>
    decreases toks.len() - i, 62int,
{
    match sp_expr(toks, i) {
        Err(e) => Err(e),
        Ok((e, j)) => if !(i <= j <= toks.len()) {
            arbitrary()
        } else {
            let acc2 = acc.push(e);
            if tok_at(toks, j) is Comma {
                sp_args(toks, j + 1, acc2)
            } else {
                Ok((acc2, j))
            }
        },
    }
}

/// `primary ::= identifier | int_literal | char_literal | "(" expression ")"`.
pub open spec fn sp_primary(toks: Seq<SpannedToken>, i: int) -> ExprParse
    decreases toks.len() - i, 14int,
{
    let t = tok_at(toks, i);
    match t {
        TokenModel::Ident(name) => Ok((ExprModel::Ident(name), i + 1)),
        TokenModel::IntLiteral(v) => Ok((ExprModel::IntLiteral(v), i + 1)),
        TokenModel::CharLiteral(c) => Ok((ExprModel::CharLiteral(c), i + 1)),
        TokenModel::LParen => match sp_expr(toks, i + 1) {
            Err(e) => Err(e),
            Ok((e, j)) => if !(i < j <= toks.len()) {
                arbitrary()
            } else {
                match expect_m(toks, j, TokenModel::RParen) {
                    Err(em) => Err(em),
                    Ok(k) => Ok((e, k)),
                }
            },
        },
        TokenModel::EOF => Err(
            ParserErrorModel::UnexpectedEOF {
                expected: "expression"@,
                line: span_at(toks, i).0,
                col: span_at(toks, i).1,
            },
        ),
        _ => Err(
            ParserErrorModel::UnsupportedToken {
                found: t,
                line: span_at(toks, i).0,
                col: span_at(toks, i).1,
            },
        ),
    }
}

/// `initializer ::= initializer_list | assignment`.
pub open spec fn sp_initializer(toks: Seq<SpannedToken>, i: int) -> ExprParse
    decreases toks.len() - i, 66int,
{
    if tok_at(toks, i) is LBrace {
        sp_init_list(toks, i)
    } else {
        sp_assign(toks, i)
    }
}

/// `initializer_list ::= "{" ( items )? "}"`, allowing a trailing
/// comma.
pub open spec fn sp_init_list(toks: Seq<SpannedToken>, i: int) -> ExprParse
    decreases toks.len() - i, 64int,
{
    match expect_m(toks, i, TokenModel::LBrace) {
        Err(e) => Err(e),
        Ok(j) => if !(i < j <= toks.len()) {
            arbitrary()
        } else if tok_at(toks, j) is RBrace {
            match expect_m(toks, j, TokenModel::RBrace) {
                Err(e) => Err(e),
                Ok(k) => Ok((ExprModel::InitializerList(Seq::empty()), k)),
            }
        } else {
            match sp_init_items(toks, j, Seq::empty()) {
                Err(e) => Err(e),
                Ok((items, k)) => if !(j <= k <= toks.len()) {
                    arbitrary()
                } else {
                    match expect_m(toks, k, TokenModel::RBrace) {
                        Err(e) => Err(e),
                        Ok(m) => Ok((ExprModel::InitializerList(items), m)),
                    }
                },
            }
        },
    }
}

/// The elements of an initializer list: initializers separated by
/// commas, stopping before a trailing `}`.
pub open spec fn sp_init_items(toks: Seq<SpannedToken>, i: int, acc: Seq<ExprModel>) -> Result<
    (Seq<ExprModel>, int),
    ParserErrorModel,
>
    decreases toks.len() - i, 68int,
{
    match sp_initializer(toks, i) {
        Err(e) => Err(e),
        Ok((e, j)) => if !(i < j <= toks.len()) {
            arbitrary()
        } else {
            let acc2 = acc.push(e);
            if tok_at(toks, j) is Comma {
                if tok_at(toks, j + 1) is RBrace {
                    Ok((acc2, j + 1))
                } else {
                    sp_init_items(toks, j + 1, acc2)
                }
            } else {
                Ok((acc2, j))
            }
        },
    }
}


/// The precedence level at which a token acts as a binary operator,
/// or 0 if it is none: 1 is `||`, 7 is multiplicative.
pub open spec fn binop_level(t: TokenModel) -> int {
    if level_op_of(1, t) is Some {
        1
    } else if level_op_of(2, t) is Some {
        2
    } else if level_op_of(3, t) is Some {
        3
    } else if level_op_of(4, t) is Some {
        4
    } else if level_op_of(5, t) is Some {
        5
    } else if level_op_of(6, t) is Some {
        6
    } else if level_op_of(7, t) is Some {
        7
    } else {
        0
    }
}

/// The binary operator a binary-operator token denotes.
pub open spec fn binop_of(t: TokenModel) -> BinaryOp {
    level_op_of(binop_level(t), t)->Some_0
}

/// A lone identifier parses as itself at the unary level: the next
/// token must not continue a postfix production.
proof fn lemma_unary_atom(toks: Seq<SpannedToken>, p: int)
    requires
        tok_at(toks, p) matches TokenModel::Ident(_),
        !(tok_at(toks, p + 1) is LParen),
        !(tok_at(toks, p + 1) is LBracket),
        !(tok_at(toks, p + 1) is Increment),
        !(tok_at(toks, p + 1) is Decrement),
    ensures
        sp_unary(toks, p) == Ok::<(ExprModel, int), ParserErrorModel>(
            (ExprModel::Ident(tok_at(toks, p)->Ident_0), p + 1),
        ),
{
    assert(0 <= p < toks.len());
    assert(sp_primary(toks, p) == Ok::<(ExprModel, int), ParserErrorModel>(
        (ExprModel::Ident(tok_at(toks, p)->Ident_0), p + 1),
    ));
    assert(sp_post_loop(toks, p + 1, ExprModel::Ident(tok_at(toks, p)->Ident_0)) == Ok::<
        (ExprModel, int),
        ParserErrorModel,
    >((ExprModel::Ident(tok_at(toks, p)->Ident_0), p + 1)));
    assert(sp_postfix(toks, p) == Ok::<(ExprModel, int), ParserErrorModel>(
        (ExprModel::Ident(tok_at(toks, p)->Ident_0), p + 1),
    ));
}

/// A lone identifier parses as itself at any binary level whose
/// operators all bind looser than the token that follows it.
proof fn lemma_bin_atom(toks: Seq<SpannedToken>, p: int, lvl: int)
    requires
        1 <= lvl <= 7,
        tok_at(toks, p) matches TokenModel::Ident(_),
        !(tok_at(toks, p + 1) is LParen),
        !(tok_at(toks, p + 1) is LBracket),
        !(tok_at(toks, p + 1) is Increment),
        !(tok_at(toks, p + 1) is Decrement),
        binop_level(tok_at(toks, p + 1)) < lvl,
    ensures
        sp_bin(toks, p, lvl) == Ok::<(ExprModel, int), ParserErrorModel>(
            (ExprModel::Ident(tok_at(toks, p)->Ident_0), p + 1),
        ),
    decreases 8 - lvl,
{
    assert(0 <= p < toks.len());
    if lvl == 7 {
        lemma_unary_atom(toks, p);
    } else {
        lemma_bin_atom(toks, p, lvl + 1);
    }
    assert(level_op_of(lvl, tok_at(toks, p + 1)) is None);
    assert(sp_bin_loop(toks, p + 1, lvl, ExprModel::Ident(tok_at(toks, p)->Ident_0)) == Ok::<
        (ExprModel, int),
        ParserErrorModel,
    >((ExprModel::Ident(tok_at(toks, p)->Ident_0), p + 1)));
}

/// On a stream shaped `IDENT OP IDENT END`, a binary level at or
/// below the operator's level takes both operands; a tighter level
/// takes only the first.
proof fn lemma_bin_pair(toks: Seq<SpannedToken>, p: int, lvl: int)
    requires
        1 <= lvl <= 7,
        tok_at(toks, p) matches TokenModel::Ident(_),
        tok_at(toks, p + 2) matches TokenModel::Ident(_),
        1 <= binop_level(tok_at(toks, p + 1)),
        binop_level(tok_at(toks, p + 3)) == 0,
        !(tok_at(toks, p + 3) is LParen),
        !(tok_at(toks, p + 3) is LBracket),
        !(tok_at(toks, p + 3) is Increment),
        !(tok_at(toks, p + 3) is Decrement),
        !(tok_at(toks, p + 1) is LParen),
        !(tok_at(toks, p + 1) is LBracket),
        !(tok_at(toks, p + 1) is Increment),
        !(tok_at(toks, p + 1) is Decrement),
    ensures
        ({
            let x = ExprModel::Ident(tok_at(toks, p)->Ident_0);
            let y = ExprModel::Ident(tok_at(toks, p + 2)->Ident_0);
            let t = tok_at(toks, p + 1);
            if lvl <= binop_level(t) {
                sp_bin(toks, p, lvl) == Ok::<(ExprModel, int), ParserErrorModel>(
                    (
                        ExprModel::BinaryOp {
                            lhs: Box::new(x),
                            op: binop_of(t),
                            rhs: Box::new(y),
                        },
                        p + 3,
                    ),
                )
            } else {
                sp_bin(toks, p, lvl) == Ok::<(ExprModel, int), ParserErrorModel>((x, p + 1))
            }
        }),
    decreases 8 - lvl,
{
    let x = ExprModel::Ident(tok_at(toks, p)->Ident_0);
    let y = ExprModel::Ident(tok_at(toks, p + 2)->Ident_0);
    let t = tok_at(toks, p + 1);
    let lt = binop_level(t);
    let xy = ExprModel::BinaryOp { lhs: Box::new(x), op: binop_of(t), rhs: Box::new(y) };
    assert(0 <= p < toks.len());
    assert(0 <= p + 2 < toks.len());
    if lvl > lt {
        lemma_bin_atom(toks, p, lvl);
    } else if lvl == lt {
        if lvl == 7 {
            lemma_unary_atom(toks, p);
            lemma_unary_atom(toks, p + 2);
        } else {
            lemma_bin_atom(toks, p, lvl + 1);
            lemma_bin_atom(toks, p + 2, lvl + 1);
        }
        assert(level_op_of(lvl, t) == Some(binop_of(t)));
        assert(level_op_of(lvl, tok_at(toks, p + 3)) is None);
        assert(sp_bin_loop(toks, p + 3, lvl, xy) == Ok::<(ExprModel, int), ParserErrorModel>(
            (xy, p + 3),
        ));
        assert(sp_bin_loop(toks, p + 1, lvl, x) == Ok::<(ExprModel, int), ParserErrorModel>(
            (xy, p + 3),
        ));
    } else {
        lemma_bin_pair(toks, p, lvl + 1);
        assert(sp_bin(toks, p, lvl + 1) == Ok::<(ExprModel, int), ParserErrorModel>((xy, p + 3)));
        assert(level_op_of(lvl, tok_at(toks, p + 3)) is None);
        assert(sp_bin_loop(toks, p + 3, lvl, xy) == Ok::<(ExprModel, int), ParserErrorModel>(
            (xy, p + 3),
        ));
    }
}

/// On the five-token stream `IDENT OP1 IDENT OP2 IDENT`, what each
/// binary level yields, by the relative precedence of the two
/// operators.
proof fn lemma_bin_triple(toks: Seq<SpannedToken>, lvl: int)
    requires
        1 <= lvl <= 7,
        toks.len() == 5,
        tok_at(toks, 0) matches TokenModel::Ident(_),
        tok_at(toks, 2) matches TokenModel::Ident(_),
        tok_at(toks, 4) matches TokenModel::Ident(_),
        1 <= binop_level(tok_at(toks, 1)),
        1 <= binop_level(tok_at(toks, 3)),
    ensures
        ({
            let a = ExprModel::Ident(tok_at(toks, 0)->Ident_0);
            let b = ExprModel::Ident(tok_at(toks, 2)->Ident_0);
            let c = ExprModel::Ident(tok_at(toks, 4)->Ident_0);
            let t1 = tok_at(toks, 1);
            let t2 = tok_at(toks, 3);
            let l1 = binop_level(t1);
            let l2 = binop_level(t2);
            let right_grouped = ExprModel::BinaryOp {
                lhs: Box::new(a),
                op: binop_of(t1),
                rhs: Box::new(
                    ExprModel::BinaryOp {
                        lhs: Box::new(b),
                        op: binop_of(t2),
                        rhs: Box::new(c),
                    },
                ),
            };
            let left_inner = ExprModel::BinaryOp {
                lhs: Box::new(a),
                op: binop_of(t1),
                rhs: Box::new(b),
            };
            let left_grouped = ExprModel::BinaryOp {
                lhs: Box::new(left_inner),
                op: binop_of(t2),
                rhs: Box::new(c),
            };
            &&& (lvl > l1 ==> sp_bin(toks, 0, lvl) == Ok::<(ExprModel, int), ParserErrorModel>(
                (a, 1),
            ))
            &&& (lvl <= l1 && l2 > l1 ==> sp_bin(toks, 0, lvl) == Ok::<
                (ExprModel, int),
                ParserErrorModel,
            >((right_grouped, 5)))
            &&& (lvl <= l1 && l2 <= l1 && lvl <= l2 ==> sp_bin(toks, 0, lvl) == Ok::<
                (ExprModel, int),
                ParserErrorModel,
            >((left_grouped, 5)))
            &&& (lvl <= l1 && l2 <= l1 && lvl > l2 ==> sp_bin(toks, 0, lvl) == Ok::<
                (ExprModel, int),
                ParserErrorModel,
            >((left_inner, 3)))
        }),
    decreases 8 - lvl,
{
    let a = ExprModel::Ident(tok_at(toks, 0)->Ident_0);
    let b = ExprModel::Ident(tok_at(toks, 2)->Ident_0);
    let c = ExprModel::Ident(tok_at(toks, 4)->Ident_0);
    let t1 = tok_at(toks, 1);
    let t2 = tok_at(toks, 3);
    let l1 = binop_level(t1);
    let l2 = binop_level(t2);
    let bc = ExprModel::BinaryOp { lhs: Box::new(b), op: binop_of(t2), rhs: Box::new(c) };
    let right_grouped = ExprModel::BinaryOp {
        lhs: Box::new(a),
        op: binop_of(t1),
        rhs: Box::new(bc),
    };
    let left_inner = ExprModel::BinaryOp { lhs: Box::new(a), op: binop_of(t1), rhs: Box::new(b) };
    let left_grouped = ExprModel::BinaryOp {
        lhs: Box::new(left_inner),
        op: binop_of(t2),
        rhs: Box::new(c),
    };
    assert(tok_at(toks, 5) is EOF);
    if lvl > l1 {
        lemma_bin_atom(toks, 0, lvl);
    } else if lvl == l1 {
        if lvl == 7 {
            lemma_unary_atom(toks, 0);
        } else {
            lemma_bin_atom(toks, 0, lvl + 1);
        }
        assert(level_op_of(lvl, t1) == Some(binop_of(t1)));
        if l2 > l1 {
            // lvl == l1 < l2 <= 7, so lvl < 7 here.
            lemma_bin_pair(toks, 2, lvl + 1);
            assert(sp_bin(toks, 2, lvl + 1) == Ok::<(ExprModel, int), ParserErrorModel>((bc, 5)));
            assert(level_op_of(lvl, tok_at(toks, 5)) is None);
            assert(sp_bin_loop(toks, 5, lvl, right_grouped) == Ok::<
                (ExprModel, int),
                ParserErrorModel,
            >((right_grouped, 5)));
            assert(sp_bin_loop(toks, 1, lvl, a) == Ok::<(ExprModel, int), ParserErrorModel>(
                (right_grouped, 5),
            ));
        } else {
            if lvl == 7 {
                lemma_unary_atom(toks, 2);
            } else {
                lemma_bin_pair(toks, 2, lvl + 1);
            }
            if l2 == l1 {
                assert(level_op_of(lvl, t2) == Some(binop_of(t2)));
                if lvl == 7 {
                    lemma_unary_atom(toks, 4);
                } else {
                    lemma_bin_atom(toks, 4, lvl + 1);
                }
                assert(level_op_of(lvl, tok_at(toks, 5)) is None);
                assert(sp_bin_loop(toks, 5, lvl, left_grouped) == Ok::<
                    (ExprModel, int),
                    ParserErrorModel,
                >((left_grouped, 5)));
                assert(sp_bin_loop(toks, 3, lvl, left_inner) == Ok::<
                    (ExprModel, int),
                    ParserErrorModel,
                >((left_grouped, 5)));
                assert(sp_bin_loop(toks, 1, lvl, a) == Ok::<(ExprModel, int), ParserErrorModel>(
                    (left_grouped, 5),
                ));
            } else {
                assert(level_op_of(lvl, t2) is None);
                assert(sp_bin_loop(toks, 3, lvl, left_inner) == Ok::<
                    (ExprModel, int),
                    ParserErrorModel,
                >((left_inner, 3)));
                assert(sp_bin_loop(toks, 1, lvl, a) == Ok::<(ExprModel, int), ParserErrorModel>(
                    (left_inner, 3),
                ));
            }
        }
    } else {
        lemma_bin_triple(toks, lvl + 1);
        if l2 > l1 {
            assert(sp_bin(toks, 0, lvl + 1) == Ok::<(ExprModel, int), ParserErrorModel>(
                (right_grouped, 5),
            ));
            assert(level_op_of(lvl, tok_at(toks, 5)) is None);
            assert(sp_bin_loop(toks, 5, lvl, right_grouped) == Ok::<
                (ExprModel, int),
                ParserErrorModel,
            >((right_grouped, 5)));
        } else if lvl + 1 <= l2 {
            assert(sp_bin(toks, 0, lvl + 1) == Ok::<(ExprModel, int), ParserErrorModel>(
                (left_grouped, 5),
            ));
            assert(level_op_of(lvl, tok_at(toks, 5)) is None);
            assert(sp_bin_loop(toks, 5, lvl, left_grouped) == Ok::<
                (ExprModel, int),
                ParserErrorModel,
            >((left_grouped, 5)));
        } else {
            // lvl >= l2: the tighter pass stopped after `a OP1 b`.
            assert(sp_bin(toks, 0, lvl + 1) == Ok::<(ExprModel, int), ParserErrorModel>(
                (left_inner, 3),
            ));
            if lvl == l2 {
                assert(level_op_of(lvl, t2) == Some(binop_of(t2)));
                lemma_bin_atom(toks, 4, lvl + 1);
                assert(level_op_of(lvl, tok_at(toks, 5)) is None);
                assert(sp_bin_loop(toks, 5, lvl, left_grouped) == Ok::<
                    (ExprModel, int),
                    ParserErrorModel,
                >((left_grouped, 5)));
                assert(sp_bin_loop(toks, 3, lvl, left_inner) == Ok::<
                    (ExprModel, int),
                    ParserErrorModel,
                >((left_grouped, 5)));
            } else {
                assert(level_op_of(lvl, t2) is None);
                assert(sp_bin_loop(toks, 3, lvl, left_inner) == Ok::<
                    (ExprModel, int),
                    ParserErrorModel,
                >((left_inner, 3)));
            }
        }
    }
}

/// Precedence and associativity of the binary operators: on any
/// stream `IDENT OP1 IDENT OP2 IDENT`, the parse groups to the right
/// exactly when the second operator binds tighter, and to the left
/// when its level is equal or looser.
pub proof fn lemma_binary_operator_precedence(toks: Seq<SpannedToken>)
    requires
        toks.len() == 5,
        tok_at(toks, 0) matches TokenModel::Ident(_),
        tok_at(toks, 2) matches TokenModel::Ident(_),
        tok_at(toks, 4) matches TokenModel::Ident(_),
        1 <= binop_level(tok_at(toks, 1)),
        1 <= binop_level(tok_at(toks, 3)),
    ensures
        ({
            let a = ExprModel::Ident(tok_at(toks, 0)->Ident_0);
            let b = ExprModel::Ident(tok_at(toks, 2)->Ident_0);
            let c = ExprModel::Ident(tok_at(toks, 4)->Ident_0);
            let t1 = tok_at(toks, 1);
            let t2 = tok_at(toks, 3);
            let grouped = if binop_level(t2) > binop_level(t1) {
                ExprModel::BinaryOp {
                    lhs: Box::new(a),
                    op: binop_of(t1),
                    rhs: Box::new(
                        ExprModel::BinaryOp {
                            lhs: Box::new(b),
                            op: binop_of(t2),
                            rhs: Box::new(c),
                        },
                    ),
                }
            } else {
                ExprModel::BinaryOp {
                    lhs: Box::new(
                        ExprModel::BinaryOp {
                            lhs: Box::new(a),
                            op: binop_of(t1),
                            rhs: Box::new(b),
                        },
                    ),
                    op: binop_of(t2),
                    rhs: Box::new(c),
                }
            };
            sp_expr(toks, 0) == Ok::<(ExprModel, int), ParserErrorModel>((grouped, 5))
        }),
{
    lemma_bin_triple(toks, 1);
    assert(tok_at(toks, 5) is EOF);
    assert(assign_op_of(tok_at(toks, 5)) is None);
}

/// Appending one expression to a list appends its image to the
/// list's image.
pub proof fn lemma_exprs_model_push(v1: Vec<Expr>, v2: Vec<Expr>, x: Expr)
    requires
        v2@ == v1@.push(x),
    ensures
        exprs_model(v2, 0) == exprs_model(v1, 0).push(expr_model(x)),
{
    lemma_exprs_model_push_from(v1, v2, x, 0);
}

proof fn lemma_exprs_model_push_from(v1: Vec<Expr>, v2: Vec<Expr>, x: Expr, i: int)
    requires
        v2@ == v1@.push(x),
        0 <= i <= v1.len(),
    ensures
        exprs_model(v2, i) == exprs_model(v1, i).push(expr_model(x)),
    decreases v1.len() - i,
{
    if i == v1.len() {
        assert(v2[i] == x);
        assert(exprs_model(v2, i + 1) =~= Seq::<ExprModel>::empty());
        assert(exprs_model(v1, i) =~= Seq::<ExprModel>::empty());
        assert(exprs_model(v2, i) =~= exprs_model(v1, i).push(expr_model(x)));
    } else {
        lemma_exprs_model_push_from(v1, v2, x, i + 1);
        assert(v2[i] == v1[i]);
        assert(exprs_model(v2, i) =~= exprs_model(v1, i).push(expr_model(x)));
    }
}

impl Parser {
    /// Parses one expression.
    pub fn parse_expr(&mut self) -> (r: ParseResult<Expr>)
        requires
            old(self).wf(),
        ensures
            final(self).wf(),
            final(self).toks() == old(self).toks(),
            old(self).at() <= final(self).at(),
            r is Ok ==> final(self).at() > old(self).at(),
            match r {
                Ok(e) => sp_expr(old(self).toks(), old(self).at()) == Ok::<
                    (ExprModel, int),
                    ParserErrorModel,
                >((e@, final(self).at())),
                Err(pe) => sp_expr(old(self).toks(), old(self).at()) == Err::<
                    (ExprModel, int),
                    ParserErrorModel,
                >(pe@),
            },
        decreases self.toks().len() - self.at(), 60int,
    {
        self.parse_assignment()
    }

    /// `assignment ::= logical_or ( ASSIGN_OP assignment )?`
    /// (right-associative).
    pub fn parse_assignment(&mut self) -> (r: ParseResult<Expr>)
        requires
            old(self).wf(),
        ensures
            final(self).wf(),
            final(self).toks() == old(self).toks(),
            old(self).at() <= final(self).at(),
            r is Ok ==> final(self).at() > old(self).at(),
            match r {
                Ok(e) => sp_assign(old(self).toks(), old(self).at()) == Ok::<
                    (ExprModel, int),
                    ParserErrorModel,
                >((e@, final(self).at())),
                Err(pe) => sp_assign(old(self).toks(), old(self).at()) == Err::<
                    (ExprModel, int),
                    ParserErrorModel,
                >(pe@),
            },
        decreases self.toks().len() - self.at(), 58int,
    {
        let lhs = self.parse_logical_or()?;
        let op = match self.current_token() {
            Token::Assign => AssignOp::Assign,
            Token::PlusAssign => AssignOp::PlusAssign,
            Token::MinusAssign => AssignOp::MinusAssign,
            Token::AsteriskAssign => AssignOp::MulAssign,
            Token::SlashAssign => AssignOp::DivAssign,
            Token::ModuloAssign => AssignOp::RemAssign,
            Token::BitAndAssign => AssignOp::BitAndAssign,
            Token::BitOrAssign => AssignOp::BitOrAssign,
            Token::BitXorAssign => AssignOp::BitXorAssign,
            _ => {
                return Ok(lhs);
            },
        };
        self.next_token();
        let rhs = self.parse_assignment()?;
        Ok(Expr::Assignment { left: Box::new(lhs), op, right: Box::new(rhs) })
    }

    /// `logical_or ::= logical_and ( "||" logical_and )*`
    #[verifier::loop_isolation(false)]
    pub fn parse_logical_or(&mut self) -> (r: ParseResult<Expr>)
        requires
            old(self).wf(),
        ensures
            final(self).wf(),
            final(self).toks() == old(self).toks(),
            old(self).at() <= final(self).at(),
            r is Ok ==> final(self).at() > old(self).at(),
            match r {
                Ok(e) => sp_bin(old(self).toks(), old(self).at(), 1) == Ok::<
                    (ExprModel, int),
                    ParserErrorModel,
                >((e@, final(self).at())),
                Err(pe) => sp_bin(old(self).toks(), old(self).at(), 1) == Err::<
                    (ExprModel, int),
                    ParserErrorModel,
                >(pe@),
            },
        decreases self.toks().len() - self.at(), 56int,
    {
        let mut expr = self.parse_logical_and()?;
        loop
            invariant
                self.wf(),
                self.toks() == old(self).toks(),
                old(self).at() < self.at(),
                sp_bin(old(self).toks(), old(self).at(), 1) == sp_bin_loop(
                    old(self).toks(),
                    self.at(),
                    1,
                    expr@,
                ),
            decreases self.toks().len() - self.at(),
        {
            let more = matches!(self.current_token(), Token::Or);
            if !more {
                break ;
            }
            self.next_token();
            let rhs = self.parse_logical_and()?;
            expr = Expr::BinaryOp { lhs: Box::new(expr), op: BinaryOp::Or, rhs: Box::new(rhs) };
        }
        Ok(expr)
    }

    /// `logical_and ::= bitwise ( "&&" bitwise )*`
    #[verifier::loop_isolation(false)]
    pub fn parse_logical_and(&mut self) -> (r: ParseResult<Expr>)
        requires
            old(self).wf(),
        ensures
            final(self).wf(),
            final(self).toks() == old(self).toks(),
            old(self).at() <= final(self).at(),
            r is Ok ==> final(self).at() > old(self).at(),
            match r {
                Ok(e) => sp_bin(old(self).toks(), old(self).at(), 2) == Ok::<
                    (ExprModel, int),
                    ParserErrorModel,
                >((e@, final(self).at())),
                Err(pe) => sp_bin(old(self).toks(), old(self).at(), 2) == Err::<
                    (ExprModel, int),
                    ParserErrorModel,
                >(pe@),
            },
        decreases self.toks().len() - self.at(), 54int,
    {
        let mut expr = self.parse_bitwise()?;
        loop
            invariant
                self.wf(),
                self.toks() == old(self).toks(),
                old(self).at() < self.at(),
                sp_bin(old(self).toks(), old(self).at(), 2) == sp_bin_loop(
                    old(self).toks(),
                    self.at(),
                    2,
                    expr@,
                ),
            decreases self.toks().len() - self.at(),
        {
            let more = matches!(self.current_token(), Token::And);
            if !more {
                break ;
            }
            self.next_token();
            let rhs = self.parse_bitwise()?;
            expr = Expr::BinaryOp { lhs: Box::new(expr), op: BinaryOp::And, rhs: Box::new(rhs) };
        }
        Ok(expr)
    }

    /// `bitwise ::= equality ( ( "&" | "|" | "^" ) equality )*`
    ///
    /// The three bitwise operators share one precedence level below
    /// `&&` and above `==`, so their operands take whole arithmetic
    /// and comparison expressions: `a & b + c` groups as
    /// `a & (b + c)`.
    #[verifier::loop_isolation(false)]
    pub fn parse_bitwise(&mut self) -> (r: ParseResult<Expr>)
        requires
            old(self).wf(),
        ensures
            final(self).wf(),
            final(self).toks() == old(self).toks(),
            old(self).at() <= final(self).at(),
            r is Ok ==> final(self).at() > old(self).at(),
            match r {
                Ok(e) => sp_bin(old(self).toks(), old(self).at(), 3) == Ok::<
                    (ExprModel, int),
                    ParserErrorModel,
                >((e@, final(self).at())),
                Err(pe) => sp_bin(old(self).toks(), old(self).at(), 3) == Err::<
                    (ExprModel, int),
                    ParserErrorModel,
                >(pe@),
            },
        decreases self.toks().len() - self.at(), 52int,
    {
        let mut expr = self.parse_equality()?;
        loop
            invariant
                self.wf(),
                self.toks() == old(self).toks(),
                old(self).at() < self.at(),
                sp_bin(old(self).toks(), old(self).at(), 3) == sp_bin_loop(
                    old(self).toks(),
                    self.at(),
                    3,
                    expr@,
                ),
            decreases self.toks().len() - self.at(),
        {
            let op = match self.current_token() {
                Token::Ampersand => BinaryOp::BitAnd,
                Token::BitOr => BinaryOp::BitOr,
                Token::BitXor => BinaryOp::BitXor,
                _ => {
                    break ;
                },
            };
            self.next_token();
            let rhs = self.parse_equality()?;
            expr = Expr::BinaryOp { lhs: Box::new(expr), op, rhs: Box::new(rhs) };
        }
        Ok(expr)
    }

    /// `equality ::= relational ( ( "==" | "!=" ) relational )*`
    #[verifier::loop_isolation(false)]
    pub fn parse_equality(&mut self) -> (r: ParseResult<Expr>)
        requires
            old(self).wf(),
        ensures
            final(self).wf(),
            final(self).toks() == old(self).toks(),
            old(self).at() <= final(self).at(),
            r is Ok ==> final(self).at() > old(self).at(),
            match r {
                Ok(e) => sp_bin(old(self).toks(), old(self).at(), 4) == Ok::<
                    (ExprModel, int),
                    ParserErrorModel,
                >((e@, final(self).at())),
                Err(pe) => sp_bin(old(self).toks(), old(self).at(), 4) == Err::<
                    (ExprModel, int),
                    ParserErrorModel,
                >(pe@),
            },
        decreases self.toks().len() - self.at(), 50int,
    {
        let mut expr = self.parse_relational()?;
        loop
            invariant
                self.wf(),
                self.toks() == old(self).toks(),
                old(self).at() < self.at(),
                sp_bin(old(self).toks(), old(self).at(), 4) == sp_bin_loop(
                    old(self).toks(),
                    self.at(),
                    4,
                    expr@,
                ),
            decreases self.toks().len() - self.at(),
        {
            let op = match self.current_token() {
                Token::Equal => BinaryOp::Eq,
                Token::NotEqual => BinaryOp::Ne,
                _ => {
                    break ;
                },
            };
            self.next_token();
            let rhs = self.parse_relational()?;
            expr = Expr::BinaryOp { lhs: Box::new(expr), op, rhs: Box::new(rhs) };
        }
        Ok(expr)
    }

    /// `relational ::= additive ( ( "<" | "<=" | ">" | ">=" ) additive )*`
    #[verifier::loop_isolation(false)]
    pub fn parse_relational(&mut self) -> (r: ParseResult<Expr>)
        requires
            old(self).wf(),
        ensures
            final(self).wf(),
            final(self).toks() == old(self).toks(),
            old(self).at() <= final(self).at(),
            r is Ok ==> final(self).at() > old(self).at(),
            match r {
                Ok(e) => sp_bin(old(self).toks(), old(self).at(), 5) == Ok::<
                    (ExprModel, int),
                    ParserErrorModel,
                >((e@, final(self).at())),
                Err(pe) => sp_bin(old(self).toks(), old(self).at(), 5) == Err::<
                    (ExprModel, int),
                    ParserErrorModel,
                >(pe@),
            },
        decreases self.toks().len() - self.at(), 48int,
    {
        let mut expr = self.parse_additive()?;
        loop
            invariant
                self.wf(),
                self.toks() == old(self).toks(),
                old(self).at() < self.at(),
                sp_bin(old(self).toks(), old(self).at(), 5) == sp_bin_loop(
                    old(self).toks(),
                    self.at(),
                    5,
                    expr@,
                ),
            decreases self.toks().len() - self.at(),
        {
            let op = match self.current_token() {
                Token::Lt => BinaryOp::Lt,
                Token::Le => BinaryOp::Le,
                Token::Gt => BinaryOp::Gt,
                Token::Ge => BinaryOp::Ge,
                _ => {
                    break ;
                },
            };
            self.next_token();
            let rhs = self.parse_additive()?;
            expr = Expr::BinaryOp { lhs: Box::new(expr), op, rhs: Box::new(rhs) };
        }
        Ok(expr)
    }

    /// `additive ::= multiplicative ( ( "+" | "-" ) multiplicative )*`
    #[verifier::loop_isolation(false)]
    pub fn parse_additive(&mut self) -> (r: ParseResult<Expr>)
        requires
            old(self).wf(),
        ensures
            final(self).wf(),
            final(self).toks() == old(self).toks(),
            old(self).at() <= final(self).at(),
            r is Ok ==> final(self).at() > old(self).at(),
            match r {
                Ok(e) => sp_bin(old(self).toks(), old(self).at(), 6) == Ok::<
                    (ExprModel, int),
                    ParserErrorModel,
                >((e@, final(self).at())),
                Err(pe) => sp_bin(old(self).toks(), old(self).at(), 6) == Err::<
                    (ExprModel, int),
                    ParserErrorModel,
                >(pe@),
            },
        decreases self.toks().len() - self.at(), 46int,
    {
        let mut expr = self.parse_multiplicative()?;
        loop
            invariant
                self.wf(),
                self.toks() == old(self).toks(),
                old(self).at() < self.at(),
                sp_bin(old(self).toks(), old(self).at(), 6) == sp_bin_loop(
                    old(self).toks(),
                    self.at(),
                    6,
                    expr@,
                ),
            decreases self.toks().len() - self.at(),
        {
            let op = match self.current_token() {
                Token::Plus => BinaryOp::Add,
                Token::Minus => BinaryOp::Sub,
                _ => {
                    break ;
                },
            };
            self.next_token();
            let rhs = self.parse_multiplicative()?;
            expr = Expr::BinaryOp { lhs: Box::new(expr), op, rhs: Box::new(rhs) };
        }
        Ok(expr)
    }

    /// `multiplicative ::= unary ( ( "*" | "/" | "%" ) unary )*`
    #[verifier::loop_isolation(false)]
    pub fn parse_multiplicative(&mut self) -> (r: ParseResult<Expr>)
        requires
            old(self).wf(),
        ensures
            final(self).wf(),
            final(self).toks() == old(self).toks(),
            old(self).at() <= final(self).at(),
            r is Ok ==> final(self).at() > old(self).at(),
            match r {
                Ok(e) => sp_bin(old(self).toks(), old(self).at(), 7) == Ok::<
                    (ExprModel, int),
                    ParserErrorModel,
                >((e@, final(self).at())),
                Err(pe) => sp_bin(old(self).toks(), old(self).at(), 7) == Err::<
                    (ExprModel, int),
                    ParserErrorModel,
                >(pe@),
            },
        decreases self.toks().len() - self.at(), 44int,
    {
        let mut expr = self.parse_unary()?;
        loop
            invariant
                self.wf(),
                self.toks() == old(self).toks(),
                old(self).at() < self.at(),
                sp_bin(old(self).toks(), old(self).at(), 7) == sp_bin_loop(
                    old(self).toks(),
                    self.at(),
                    7,
                    expr@,
                ),
            decreases self.toks().len() - self.at(),
        {
            let op = match self.current_token() {
                Token::Asterisk => BinaryOp::Mul,
                Token::Slash => BinaryOp::Div,
                Token::Percent => BinaryOp::Rem,
                _ => {
                    break ;
                },
            };
            self.next_token();
            let rhs = self.parse_unary()?;
            expr = Expr::BinaryOp { lhs: Box::new(expr), op, rhs: Box::new(rhs) };
        }
        Ok(expr)
    }

    /// `unary ::= ( "!" | "-" | "&" | "*" | "++" | "--" ) unary | postfix`
    pub fn parse_unary(&mut self) -> (r: ParseResult<Expr>)
        requires
            old(self).wf(),
        ensures
            final(self).wf(),
            final(self).toks() == old(self).toks(),
            old(self).at() <= final(self).at(),
            r is Ok ==> final(self).at() > old(self).at(),
            match r {
                Ok(e) => sp_unary(old(self).toks(), old(self).at()) == Ok::<
                    (ExprModel, int),
                    ParserErrorModel,
                >((e@, final(self).at())),
                Err(pe) => sp_unary(old(self).toks(), old(self).at()) == Err::<
                    (ExprModel, int),
                    ParserErrorModel,
                >(pe@),
            },
        decreases self.toks().len() - self.at(), 20int,
    {
        let op = match self.current_token() {
            Token::Not => PrefixOp::Not,
            Token::Minus => PrefixOp::Neg,
            Token::Ampersand => PrefixOp::Address,
            Token::Asterisk => PrefixOp::Deref,
            Token::Increment => PrefixOp::PreInc,
            Token::Decrement => PrefixOp::PreDec,
            _ => {
                return self.parse_postfix();
            },
        };
        self.next_token();
        let rhs = self.parse_unary()?;
        Ok(Expr::UnaryPrefixOp { op, rhs: Box::new(rhs) })
    }

    /// `postfix ::= primary ( call | index | "++" | "--" )*`
    #[verifier::loop_isolation(false)]
    #[verifier::rlimit(100)]
    #[verifier::spinoff_prover]
    pub fn parse_postfix(&mut self) -> (r: ParseResult<Expr>)
        requires
            old(self).wf(),
        ensures
            final(self).wf(),
            final(self).toks() == old(self).toks(),
            old(self).at() <= final(self).at(),
            r is Ok ==> final(self).at() > old(self).at(),
            match r {
                Ok(e) => sp_postfix(old(self).toks(), old(self).at()) == Ok::<
                    (ExprModel, int),
                    ParserErrorModel,
                >((e@, final(self).at())),
                Err(pe) => sp_postfix(old(self).toks(), old(self).at()) == Err::<
                    (ExprModel, int),
                    ParserErrorModel,
                >(pe@),
            },
        decreases self.toks().len() - self.at(), 18int,
    {
        let mut expr = self.parse_primary()?;
        loop
            invariant
                self.wf(),
                self.toks() == old(self).toks(),
                old(self).at() < self.at(),
                sp_postfix(old(self).toks(), old(self).at()) == sp_post_loop(
                    old(self).toks(),
                    self.at(),
                    expr@,
                ),
            decreases self.toks().len() - self.at(),
        {
            let ghost at_loop = self.at();
            if matches!(self.current_token(), Token::LParen) {
                self.next_token();
                let args = if !(matches!(self.current_token(), Token::RParen)) {
                    let mut v: Vec<Expr> = Vec::new();
                    loop
                        invariant
                            self.wf(),
                            self.toks() == old(self).toks(),
                            at_loop < self.at(),
                            sp_args(old(self).toks(), at_loop + 1, Seq::empty()) == sp_args(
                                old(self).toks(),
                                self.at(),
                                exprs_model(v, 0),
                            ),
                        decreases self.toks().len() - self.at(),
                    {
                        let ghost v_before = v;
                        let e = self.parse_expr()?;
                        proof {
                            assert(v@ == v_before@);
                        }
                        v.push(e);
                        proof {
                            lemma_exprs_model_push(v_before, v, e);
                        }
                        if matches!(self.current_token(), Token::Comma) {
                            self.next_token();
                            continue ;
                        }
                        break ;
                    }
                    v
                } else {
                    Vec::new()
                };
                self.expect(Token::RParen)?;
                proof {
                    if args@.len() == 0 {
                        assert(exprs_model(args, 0) =~= Seq::<ExprModel>::empty());
                    }
                }
                expr = Expr::Call { func: Box::new(expr), args };
            } else if matches!(self.current_token(), Token::LBracket) {
                self.next_token();
                let idx = self.parse_expr()?;
                self.expect(Token::RBracket)?;
                expr = Expr::ArrayIndex { array: Box::new(expr), index: Box::new(idx) };
            } else if matches!(self.current_token(), Token::Increment) {
                self.next_token();
                expr = Expr::UnaryPostfixOp { lhs: Box::new(expr), op: PostfixOp::PostInc };
            } else if matches!(self.current_token(), Token::Decrement) {
                self.next_token();
                expr = Expr::UnaryPostfixOp { lhs: Box::new(expr), op: PostfixOp::PostDec };
            } else {
                break ;
            }
        }
        Ok(expr)
    }

    /// `primary ::= identifier | int_literal | char_literal | "(" expression ")"`
    pub fn parse_primary(&mut self) -> (r: ParseResult<Expr>)
        requires
            old(self).wf(),
        ensures
            final(self).wf(),
            final(self).toks() == old(self).toks(),
            old(self).at() <= final(self).at(),
            r is Ok ==> final(self).at() > old(self).at(),
            match r {
                Ok(e) => sp_primary(old(self).toks(), old(self).at()) == Ok::<
                    (ExprModel, int),
                    ParserErrorModel,
                >((e@, final(self).at())),
                Err(pe) => sp_primary(old(self).toks(), old(self).at()) == Err::<
                    (ExprModel, int),
                    ParserErrorModel,
                >(pe@),
            },
        decreases self.toks().len() - self.at(), 14int,
    {
        match self.current_token() {
            Token::Ident(_) => {
                let name = self.expect_ident()?;
                Ok(Expr::Ident(name))
            },
            Token::IntLiteral(_) => {
                let v = self.expect_int_literal()?;
                Ok(Expr::IntLiteral(v))
            },
            Token::CharLiteral(_) => {
                let v = self.expect_char_literal()?;
                Ok(Expr::CharLiteral(v))
            },
            Token::LParen => {
                self.next_token();
                let e = self.parse_expr()?;
                self.expect(Token::RParen)?;
                Ok(e)
            },
            Token::EOF => self.unexpected_eof(String::from_str("expression")),
            _ => self.unsupported_token(),
        }
    }

    /// `initializer ::= "{" initializer_list? "}" | assignment`
    pub fn parse_initializer(&mut self) -> (r: ParseResult<Expr>)
        requires
            old(self).wf(),
        ensures
            final(self).wf(),
            final(self).toks() == old(self).toks(),
            old(self).at() <= final(self).at(),
            r is Ok ==> final(self).at() > old(self).at(),
            match r {
                Ok(e) => sp_initializer(old(self).toks(), old(self).at()) == Ok::<
                    (ExprModel, int),
                    ParserErrorModel,
                >((e@, final(self).at())),
                Err(pe) => sp_initializer(old(self).toks(), old(self).at()) == Err::<
                    (ExprModel, int),
                    ParserErrorModel,
                >(pe@),
            },
        decreases self.toks().len() - self.at(), 66int,
    {
        if matches!(self.current_token(), Token::LBrace) {
            self.parse_initializer_list()
        } else {
            self.parse_assignment()
        }
    }

    /// `initializer_list ::= "{" ( initializer ( "," initializer )* ","? )? "}"`
    ///
    /// A trailing comma before the closing brace is allowed.
    #[verifier::loop_isolation(false)]
    pub fn parse_initializer_list(&mut self) -> (r: ParseResult<Expr>)
        requires
            old(self).wf(),
        ensures
            final(self).wf(),
            final(self).toks() == old(self).toks(),
            old(self).at() <= final(self).at(),
            r is Ok ==> final(self).at() > old(self).at(),
            match r {
                Ok(e) => sp_init_list(old(self).toks(), old(self).at()) == Ok::<
                    (ExprModel, int),
                    ParserErrorModel,
                >((e@, final(self).at())),
                Err(pe) => sp_init_list(old(self).toks(), old(self).at()) == Err::<
                    (ExprModel, int),
                    ParserErrorModel,
                >(pe@),
            },
        decreases self.toks().len() - self.at(), 64int,
    {
        self.expect(Token::LBrace)?;
        let ghost after_brace = self.at();
        let mut exprs: Vec<Expr> = Vec::new();
        if !(matches!(self.current_token(), Token::RBrace)) {
            loop
                invariant
                    self.wf(),
                    self.toks() == old(self).toks(),
                    old(self).at() < self.at(),
                    after_brace <= self.at(),
                    sp_init_items(old(self).toks(), after_brace, Seq::empty()) == sp_init_items(
                        old(self).toks(),
                        self.at(),
                        exprs_model(exprs, 0),
                    ),
                decreases self.toks().len() - self.at(),
            {
                let ghost v_before = exprs;
                let e = self.parse_initializer()?;
                proof {
                    assert(exprs@ == v_before@);
                }
                exprs.push(e);
                proof {
                    lemma_exprs_model_push(v_before, exprs, e);
                }
                if matches!(self.current_token(), Token::Comma) {
                    self.next_token();
                    if matches!(self.current_token(), Token::RBrace) {
                        break ;
                    }
                    continue ;
                }
                break ;
            }
        }
        self.expect(Token::RBrace)?;
        proof {
            if exprs@.len() == 0 {
                assert(exprs_model(exprs, 0) =~= Seq::<ExprModel>::empty());
            }
        }
        Ok(Expr::InitializerList(exprs))
    }

    /// Parses a single character literal as an expression.
    pub fn parse_char_literal(&mut self) -> (r: ParseResult<Expr>)
        requires
            old(self).wf(),
        ensures
            final(self).wf(),
            final(self).toks() == old(self).toks(),
            match r {
                Ok(e) => old(self).cur() matches TokenModel::CharLiteral(c) && e
                    == Expr::CharLiteral(c) && final(self).at() == old(self).at() + 1,
                Err(_) => !(old(self).cur() is CharLiteral) && final(self).at() == old(self).at(),
            },
    {
        let value = self.expect_char_literal()?;
        Ok(Expr::CharLiteral(value))
    }

    /// Parses a single integer literal as an expression.
    pub fn parse_int_literal(&mut self) -> (r: ParseResult<Expr>)
        requires
            old(self).wf(),
        ensures
            final(self).wf(),
            final(self).toks() == old(self).toks(),
            match r {
                Ok(e) => old(self).cur() matches TokenModel::IntLiteral(v) && e
                    == Expr::IntLiteral(v) && final(self).at() == old(self).at() + 1,
                Err(_) => !(old(self).cur() is IntLiteral) && final(self).at() == old(self).at(),
            },
    {
        let value = self.expect_int_literal()?;
        Ok(Expr::IntLiteral(value))
    }

    /// Parses a single identifier as an expression.
    pub fn parse_identifier(&mut self) -> (r: ParseResult<Expr>)
        requires
            old(self).wf(),
        ensures
            final(self).wf(),
            final(self).toks() == old(self).toks(),
            match r {
                Ok(e) => old(self).cur() matches TokenModel::Ident(n) && e matches Expr::Ident(s)
                    && s@ == n && final(self).at() == old(self).at() + 1,
                Err(_) => !(old(self).cur() is Ident) && final(self).at() == old(self).at(),
            },
    {
        let string = self.expect_ident()?;
        Ok(Expr::Ident(string))
    }
}

} // verus!
