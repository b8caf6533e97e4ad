//! The parser's specification: the grammar of Celeste as functions from the
//! state of the lexer and the name tables to what is parsed and the state
//! after it.
use vstd::prelude::*;
use crate::ast::{CelesteType, SpecExpr, SpecStmt};
use crate::compiler::{Compiler, VariableInfo, maps_lookup, maps_add, maps_pop, scope_maps};
use crate::lexer::{lex_spec, LexOutcome, LexErrorSpec, token_weight, lemma_lex_progress, lemma_skip_blanks};
use crate::parser::type_of_name;
use crate::tokens::TokenSpec;

verus! {

/// What the parser sees: the lexer's position, line and current token, the
/// block scopes (outermost first) and the global function table.
pub struct PState {
    pub index: nat,
    pub line: nat,
    pub tok: TokenSpec,
    pub scopes: Seq<Map<Seq<char>, VariableInfo>>,
    pub globals: Map<Seq<char>, CelesteType>,
}

/// The parser's view of a compiler state.
pub open spec fn pstate(c: Compiler) -> PState {
    PState {
        index: c.index as nat,
        line: c.line as nat,
        tok: c.cur_tok@,
        scopes: scope_maps(c.scopes@),
        globals: c.globals@,
    }
}

/// The mathematical value of a parse error.
pub enum ParseErrorSpec {
    Lex(LexErrorSpec),
    ExpectedIncludePath { line: nat },
    UnexpectedTopLevel { line: nat, token: TokenSpec },
    ExpectedFunctionName { line: nat },
    ExpectedOpenParen { line: nat },
    ExpectedCloseParen { line: nat },
    ExpectedCloseParenAfterWhile { line: nat },
    ExpectedOpenCurly { line: nat },
    ExpectedCloseCurly { line: nat },
    ExpectedEquals { line: nat },
    MissingReturn { line: nat, name: Seq<char> },
    EmptyBodyNeedsReturn { line: nat, name: Seq<char> },
    UndefinedVariable { line: nat, name: Seq<char> },
    NotMutable { line: nat, name: Seq<char> },
    InvalidAssignmentTarget { line: nat },
    UnknownStatement { line: nat, token: TokenSpec },
    ExpectedExpression { line: nat, token: TokenSpec },
    Malformed { line: nat },
    Stalled { line: nat },
}

pub type PResult<T> = Result<(T, PState), ParseErrorSpec>;

pub type EResult = Result<(SpecExpr, CelesteType, PState), ParseErrorSpec>;

/// Two units per unread byte plus the weight of the current token.
pub open spec fn pmeasure(src: Seq<u8>, st: PState) -> nat {
    ((if st.index <= src.len() { 2 * (src.len() - st.index) } else { 0int }) + token_weight(st.tok)) as nat
}

/// `a` is strictly closer to the end of input than `b`.
pub open spec fn progressed(src: Seq<u8>, a: PState, b: PState) -> bool {
    pmeasure(src, a) < pmeasure(src, b)
}

/// The state after reading the next token.
pub open spec fn advance(src: Seq<u8>, st: PState) -> Result<PState, ParseErrorSpec> {
    match lex_spec(src, st.index, st.line) {
        LexOutcome::Token(t, i, l) => Ok(PState { index: i, line: l, tok: t, scopes: st.scopes, globals: st.globals }),
        LexOutcome::Error(e) => Err(ParseErrorSpec::Lex(e)),
    }
}

pub proof fn lemma_advance(src: Seq<u8>, st: PState)
    ensures
        advance(src, st) matches Ok(s) ==> {
            &&& pmeasure(src, s) + token_weight(st.tok) <= pmeasure(src, st)
            &&& s.scopes == st.scopes
            &&& s.globals == st.globals
        },
{
    if st.index <= src.len() {
        lemma_lex_progress(src, st.index, st.line);
    } else {
        lemma_skip_blanks(src, st.index, st.line);
    }
}

/// Reads the current token when it is `tok`, else stays.
pub open spec fn skip_if(src: Seq<u8>, st: PState, tok: TokenSpec) -> Result<PState, ParseErrorSpec> {
    if st.tok == tok {
        advance(src, st)
    } else {
        Ok(st)
    }
}

pub proof fn lemma_skip_if(src: Seq<u8>, st: PState, tok: TokenSpec)
    ensures
        skip_if(src, st, tok) matches Ok(s) ==> {
            &&& pmeasure(src, s) <= pmeasure(src, st)
            &&& s.scopes == st.scopes
            &&& s.globals == st.globals
        },
{
    lemma_advance(src, st);
}

pub open spec fn stalled(st: PState) -> ParseErrorSpec {
    ParseErrorSpec::Stalled { line: st.line }
}

// ---------------------------------------------------------------- expressions

/// A primary expression that starts with the identifier `name`: a call when
/// a parenthesis follows, else a variable, which must be in scope.
pub open spec fn parse_ident_spec(src: Seq<u8>, st: PState, name: Seq<char>) -> EResult
    decreases pmeasure(src, st), 0nat,
{
    proof {
        lemma_advance(src, st);
    }
    match advance(src, st) {
        Err(e) => Err(e),
        Ok(s1) => {
            if s1.tok is OpenParen {
                proof {
                    lemma_advance(src, s1);
                }
                match advance(src, s1) {
                    Err(e) => Err(e),
                    Ok(s2) => match parse_args_spec(src, s2, Seq::empty()) {
                        Err(e) => Err(e),
                        Ok((args, s3)) => match advance(src, s3) {
                            Err(e) => Err(e),
                            Ok(s4) => Ok((
                                SpecExpr::Call { name, args },
                                if s4.globals.contains_key(name) { s4.globals[name] } else { CelesteType::Int },
                                s4,
                            )),
                        },
                    },
                }
            } else {
                match maps_lookup(s1.scopes, name) {
                    Some(info) => Ok((SpecExpr::Variable(name), info.var_type, s1)),
                    None => Err(ParseErrorSpec::UndefinedVariable { line: s1.line, name }),
                }
            }
        },
    }
}

/// `primary := int | string | ident | ident '(' args ')' | '(' expr ')'`;
/// also the type the parser gives it.
pub open spec fn parse_primary_spec(src: Seq<u8>, st: PState) -> EResult
    decreases pmeasure(src, st), 1nat,
{
    proof {
        lemma_advance(src, st);
    }
    match st.tok {
        TokenSpec::Int(n) => match advance(src, st) {
            Ok(s1) => Ok((SpecExpr::Integer(n), CelesteType::Int, s1)),
            Err(e) => Err(e),
        },
        TokenSpec::StringLiteral(s) => match advance(src, st) {
            Ok(s1) => Ok((SpecExpr::StringLiteral(s), CelesteType::String, s1)),
            Err(e) => Err(e),
        },
        TokenSpec::Ident(name) => parse_ident_spec(src, st, name),
        TokenSpec::OpenParen => match advance(src, st) {
            Err(e) => Err(e),
            Ok(s1) => match parse_expr_spec(src, s1) {
                Err(e) => Err(e),
                Ok((e, t, s2)) => {
                    if s2.tok is CloseParen {
                        match advance(src, s2) {
                            Ok(s3) => Ok((e, t, s3)),
                            Err(x) => Err(x),
                        }
                    } else {
                        Err(ParseErrorSpec::ExpectedCloseParen { line: s2.line })
                    }
                },
            },
        },
        _ => Err(ParseErrorSpec::ExpectedExpression { line: st.line, token: st.tok }),
    }
}

/// The arguments of a call, up to (not including) its closing parenthesis,
/// appended to `acc`. An argument that reads nothing (the lexer stays on
/// the same number) would repeat forever: that is reported as stalled.
pub open spec fn parse_args_spec(src: Seq<u8>, st: PState, acc: Seq<SpecExpr>) -> PResult<Seq<SpecExpr>>
    decreases pmeasure(src, st), 9nat,
{
    if st.tok is CloseParen {
        Ok((acc, st))
    } else {
        match parse_expr_spec(src, st) {
            Err(e) => Err(e),
            Ok((e, _, s1)) => match skip_if(src, s1, TokenSpec::Comma) {
                Err(x) => Err(x),
                Ok(s2) => {
                    if progressed(src, s2, st) {
                        parse_args_spec(src, s2, acc.push(e))
                    } else if s2.tok is Eof {
                        Err(ParseErrorSpec::ExpectedExpression { line: s2.line, token: TokenSpec::Eof })
                    } else {
                        Err(stalled(s2))
                    }
                },
            },
        }
    }
}

pub open spec fn mul_op(t: TokenSpec) -> Option<char> {
    match t {
        TokenSpec::Star => Some('*'),
        TokenSpec::Slash => Some('/'),
        _ => None,
    }
}

pub open spec fn add_op(t: TokenSpec) -> Option<char> {
    match t {
        TokenSpec::Plus => Some('+'),
        TokenSpec::Minus => Some('-'),
        _ => None,
    }
}

pub open spec fn cmp_op(t: TokenSpec) -> Option<char> {
    match t {
        TokenSpec::Less => Some('<'),
        TokenSpec::Greater => Some('>'),
        TokenSpec::DoubleEquals => Some('='),
        _ => None,
    }
}

pub open spec fn binary(op: char, lhs: SpecExpr, rhs: SpecExpr) -> SpecExpr {
    SpecExpr::Binary { op, lhs: Box::new(lhs), rhs: Box::new(rhs) }
}

/// `( ('*' | '/') primary )*` folded to the left onto `lhs`.
pub open spec fn mul_rest_spec(src: Seq<u8>, st: PState, lhs: SpecExpr, ty: CelesteType) -> EResult
    decreases pmeasure(src, st), 2nat,
{
    match mul_op(st.tok) {
        Some(op) => {
            proof {
                lemma_advance(src, st);
            }
            match advance(src, st) {
                Err(e) => Err(e),
                Ok(s1) => match parse_primary_spec(src, s1) {
                    Err(e) => Err(e),
                    Ok((rhs, _, s2)) => {
                        if progressed(src, s2, st) {
                            mul_rest_spec(src, s2, binary(op, lhs, rhs), CelesteType::Int)
                        } else {
                            Err(stalled(s2))
                        }
                    },
                },
            }
        },
        None => Ok((lhs, ty, st)),
    }
}

pub open spec fn parse_multiplicative_spec(src: Seq<u8>, st: PState) -> EResult
    decreases pmeasure(src, st), 3nat,
{
    match parse_primary_spec(src, st) {
        Err(e) => Err(e),
        Ok((lhs, ty, s1)) => {
            if pmeasure(src, s1) <= pmeasure(src, st) {
                mul_rest_spec(src, s1, lhs, ty)
            } else {
                Err(stalled(s1))
            }
        },
    }
}

/// `( ('+' | '-') multiplicative )*` folded to the left onto `lhs`.
pub open spec fn add_rest_spec(src: Seq<u8>, st: PState, lhs: SpecExpr, ty: CelesteType) -> EResult
    decreases pmeasure(src, st), 4nat,
{
    match add_op(st.tok) {
        Some(op) => {
            proof {
                lemma_advance(src, st);
            }
            match advance(src, st) {
                Err(e) => Err(e),
                Ok(s1) => match parse_multiplicative_spec(src, s1) {
                    Err(e) => Err(e),
                    Ok((rhs, _, s2)) => {
                        if progressed(src, s2, st) {
                            add_rest_spec(src, s2, binary(op, lhs, rhs), CelesteType::Int)
                        } else {
                            Err(stalled(s2))
                        }
                    },
                },
            }
        },
        None => Ok((lhs, ty, st)),
    }
}

pub open spec fn parse_additive_spec(src: Seq<u8>, st: PState) -> EResult
    decreases pmeasure(src, st), 5nat,
{
    match parse_multiplicative_spec(src, st) {
        Err(e) => Err(e),
        Ok((lhs, ty, s1)) => {
            if pmeasure(src, s1) <= pmeasure(src, st) {
                add_rest_spec(src, s1, lhs, ty)
            } else {
                Err(stalled(s1))
            }
        },
    }
}

/// `( ('<' | '>' | '==') additive )*` folded to the left onto `lhs`.
pub open spec fn cmp_rest_spec(src: Seq<u8>, st: PState, lhs: SpecExpr, ty: CelesteType) -> EResult
    decreases pmeasure(src, st), 6nat,
{
    match cmp_op(st.tok) {
        Some(op) => {
            proof {
                lemma_advance(src, st);
            }
            match advance(src, st) {
                Err(e) => Err(e),
                Ok(s1) => match parse_additive_spec(src, s1) {
                    Err(e) => Err(e),
                    Ok((rhs, _, s2)) => {
                        if progressed(src, s2, st) {
                            cmp_rest_spec(src, s2, binary(op, lhs, rhs), CelesteType::Int)
                        } else {
                            Err(stalled(s2))
                        }
                    },
                },
            }
        },
        None => Ok((lhs, ty, st)),
    }
}

pub open spec fn parse_comparison_spec(src: Seq<u8>, st: PState) -> EResult
    decreases pmeasure(src, st), 7nat,
{
    match parse_additive_spec(src, st) {
        Err(e) => Err(e),
        Ok((lhs, ty, s1)) => {
            if pmeasure(src, s1) <= pmeasure(src, st) {
                cmp_rest_spec(src, s1, lhs, ty)
            } else {
                Err(stalled(s1))
            }
        },
    }
}

/// A number token is read as the integer literal of that number, of type
/// `int`; a string token as the string literal of those characters, of
/// type `string`; either way the parser moves to the next token.
pub proof fn law_literal_tokens(src: Seq<u8>, st: PState)
    ensures
        st.tok matches TokenSpec::Int(n) ==> (advance(src, st) matches Ok(s1)
            ==> parse_primary_spec(src, st) == Ok::<(SpecExpr, CelesteType, PState), ParseErrorSpec>((SpecExpr::Integer(n), CelesteType::Int, s1))),
        st.tok matches TokenSpec::StringLiteral(t) ==> (advance(src, st) matches Ok(s1)
            ==> parse_primary_spec(src, st) == Ok::<(SpecExpr, CelesteType, PState), ParseErrorSpec>((SpecExpr::StringLiteral(t), CelesteType::String, s1))),
{
}

/// An additive operator token after an expression `lhs` makes the binary
/// expression of the operator that the token spells (`+` for `Plus`, `-`
/// for `Minus`), with `lhs` on the left and the multiplicative expression
/// after the token on the right; the rest of the chain is folded onto it.
#[verifier::rlimit(40)]
pub proof fn law_additive_token_spells_operator(src: Seq<u8>, st: PState, lhs: SpecExpr, ty: CelesteType, op: char)
    requires
        (st.tok == TokenSpec::Plus && op == '+') || (st.tok == TokenSpec::Minus && op == '-'),
    ensures
        add_rest_spec(src, st, lhs, ty) is Ok ==> exists|rhs: SpecExpr, s1: PState, s2: PState|
            #![trigger add_rest_spec(src, s2, SpecExpr::Binary { op, lhs: Box::new(lhs), rhs: Box::new(rhs) }, CelesteType::Int), parse_multiplicative_spec(src, s1)]
            advance(src, st) == Ok::<PState, ParseErrorSpec>(s1)
            && parse_multiplicative_spec(src, s1) is Ok
            && parse_multiplicative_spec(src, s1)->Ok_0.0 == rhs
            && parse_multiplicative_spec(src, s1)->Ok_0.2 == s2
            && add_rest_spec(src, st, lhs, ty) == add_rest_spec(src, s2, SpecExpr::Binary { op, lhs: Box::new(lhs), rhs: Box::new(rhs) }, CelesteType::Int),
{
    if add_rest_spec(src, st, lhs, ty) is Ok {
        let s1 = advance(src, st)->Ok_0;
        let (rhs, t, s2) = parse_multiplicative_spec(src, s1)->Ok_0;
        assert(add_rest_spec(src, st, lhs, ty) == add_rest_spec(src, s2, SpecExpr::Binary { op, lhs: Box::new(lhs), rhs: Box::new(rhs) }, CelesteType::Int));
    }
}

/// A multiplicative operator token after an expression `lhs` makes the
/// binary expression of the operator that the token spells (`*` for `Star`,
/// `/` for `Slash`), with `lhs` on the left and the primary expression after
/// the token on the right.
#[verifier::rlimit(40)]
pub proof fn law_multiplicative_token_spells_operator(src: Seq<u8>, st: PState, lhs: SpecExpr, ty: CelesteType, op: char)
    requires
        (st.tok == TokenSpec::Star && op == '*') || (st.tok == TokenSpec::Slash && op == '/'),
    ensures
        mul_rest_spec(src, st, lhs, ty) is Ok ==> exists|rhs: SpecExpr, s1: PState, s2: PState|
            #![trigger mul_rest_spec(src, s2, SpecExpr::Binary { op, lhs: Box::new(lhs), rhs: Box::new(rhs) }, CelesteType::Int), parse_primary_spec(src, s1)]
            advance(src, st) == Ok::<PState, ParseErrorSpec>(s1)
            && parse_primary_spec(src, s1) is Ok
            && parse_primary_spec(src, s1)->Ok_0.0 == rhs
            && parse_primary_spec(src, s1)->Ok_0.2 == s2
            && mul_rest_spec(src, st, lhs, ty) == mul_rest_spec(src, s2, SpecExpr::Binary { op, lhs: Box::new(lhs), rhs: Box::new(rhs) }, CelesteType::Int),
{
    if mul_rest_spec(src, st, lhs, ty) is Ok {
        let s1 = advance(src, st)->Ok_0;
        let (rhs, t, s2) = parse_primary_spec(src, s1)->Ok_0;
        assert(mul_rest_spec(src, st, lhs, ty) == mul_rest_spec(src, s2, SpecExpr::Binary { op, lhs: Box::new(lhs), rhs: Box::new(rhs) }, CelesteType::Int));
    }
}

/// A comparison token after an expression `lhs` makes the comparison that
/// the token spells (`<` for `Less`, `>` for `Greater`, `=` for
/// `DoubleEquals`), with `lhs` on the left and the additive expression after
/// the token on the right.
#[verifier::rlimit(40)]
pub proof fn law_comparison_token_spells_operator(src: Seq<u8>, st: PState, lhs: SpecExpr, ty: CelesteType, op: char)
    requires
        (st.tok == TokenSpec::Less && op == '<') || (st.tok == TokenSpec::Greater && op == '>') || (st.tok == TokenSpec::DoubleEquals && op == '='),
    ensures
        cmp_rest_spec(src, st, lhs, ty) is Ok ==> exists|rhs: SpecExpr, s1: PState, s2: PState|
            #![trigger cmp_rest_spec(src, s2, SpecExpr::Binary { op, lhs: Box::new(lhs), rhs: Box::new(rhs) }, CelesteType::Int), parse_additive_spec(src, s1)]
            advance(src, st) == Ok::<PState, ParseErrorSpec>(s1)
            && parse_additive_spec(src, s1) is Ok
            && parse_additive_spec(src, s1)->Ok_0.0 == rhs
            && parse_additive_spec(src, s1)->Ok_0.2 == s2
            && cmp_rest_spec(src, st, lhs, ty) == cmp_rest_spec(src, s2, SpecExpr::Binary { op, lhs: Box::new(lhs), rhs: Box::new(rhs) }, CelesteType::Int),
{
    if cmp_rest_spec(src, st, lhs, ty) is Ok {
        let s1 = advance(src, st)->Ok_0;
        let (rhs, t, s2) = parse_additive_spec(src, s1)->Ok_0;
        assert(cmp_rest_spec(src, st, lhs, ty) == cmp_rest_spec(src, s2, SpecExpr::Binary { op, lhs: Box::new(lhs), rhs: Box::new(rhs) }, CelesteType::Int));
    }
}

/// An expression and the type the parser gives it.
pub open spec fn parse_expr_spec(src: Seq<u8>, st: PState) -> EResult
    decreases pmeasure(src, st), 8nat,
{
    parse_comparison_spec(src, st)
}


// ----------------------------------------------------------------- statements

/// The variable record that a declaration makes.
pub open spec fn declared(ty: CelesteType, is_mutable: bool) -> VariableInfo {
    VariableInfo { stack_slot: None, var_type: ty, is_mutable, cranelift_var: None }
}

/// `let := 'let' 'mut'? ident '=' expr ';'?`; binds the name in the
/// innermost scope with the expression's type.
#[verifier::opaque]
pub open spec fn parse_let_spec(src: Seq<u8>, st: PState) -> PResult<SpecStmt> {
    match advance(src, st) {
        Err(e) => Err(e),
        Ok(s1) => {
            let is_mut = s1.tok is Mut;
            match skip_if(src, s1, TokenSpec::Mut) {
                Err(e) => Err(e),
                Ok(s2) => match s2.tok {
                    TokenSpec::Ident(name) => match advance(src, s2) {
                        Err(e) => Err(e),
                        Ok(s3) => {
                            if !(s3.tok is Equals) {
                                Err(ParseErrorSpec::ExpectedEquals { line: s3.line })
                            } else {
                                match advance(src, s3) {
                                    Err(e) => Err(e),
                                    Ok(s4) => match parse_expr_spec(src, s4) {
                                        Err(e) => Err(e),
                                        Ok((v, vty, s5)) => match skip_if(src, s5, TokenSpec::Semicolon) {
                                            Err(e) => Err(e),
                                            Ok(s6) => Ok((
                                                SpecStmt::Let { name, value: v, line: st.line },
                                                PState { scopes: maps_add(s6.scopes, name, declared(vty, is_mut)), ..s6 },
                                            )),
                                        },
                                    },
                                }
                            }
                        },
                    },
                    _ => Err(ParseErrorSpec::Malformed { line: s2.line }),
                },
            }
        },
    }
}

/// `return := 'return' ';' | 'return' expr ';'?`; a bare return returns 0.
#[verifier::opaque]
pub open spec fn parse_return_spec(src: Seq<u8>, st: PState) -> PResult<SpecStmt> {
    match advance(src, st) {
        Err(e) => Err(e),
        Ok(s1) => {
            if s1.tok is Semicolon {
                match advance(src, s1) {
                    Err(e) => Err(e),
                    Ok(s2) => Ok((SpecStmt::Return { value: SpecExpr::Integer(0), line: st.line }, s2)),
                }
            } else {
                match parse_expr_spec(src, s1) {
                    Err(e) => Err(e),
                    Ok((v, _, s2)) => match skip_if(src, s2, TokenSpec::Semicolon) {
                        Err(e) => Err(e),
                        Ok(s3) => Ok((SpecStmt::Return { value: v, line: st.line }, s3)),
                    },
                }
            }
        },
    }
}

/// The first clause of a `for` header, read from `st` (after the
/// parenthesis, if any): a `let`, an expression, or nothing.
#[verifier::opaque]
pub open spec fn for_init_spec(src: Seq<u8>, st: PState) -> PResult<Option<SpecStmt>> {
    if !(st.tok is Semicolon) {
        if st.tok is Let {
            match parse_let_spec(src, st) {
                Err(e) => Err(e),
                Ok((i, s1)) => Ok((Some(i), s1)),
            }
        } else {
            match parse_expr_spec(src, st) {
                Err(e) => Err(e),
                Ok((e, _, s1)) => match skip_if(src, s1, TokenSpec::Semicolon) {
                    Err(x) => Err(x),
                    Ok(s2) => Ok((Some(SpecStmt::Expression(e, st.line)), s2)),
                },
            }
        }
    } else {
        match advance(src, st) {
            Err(e) => Err(e),
            Ok(s1) => Ok((None, s1)),
        }
    }
}

/// The condition clause of a `for` header and the semicolon after it.
#[verifier::opaque]
pub open spec fn for_cond_spec(src: Seq<u8>, st: PState) -> PResult<Option<SpecExpr>> {
    if !(st.tok is Semicolon) {
        match parse_expr_spec(src, st) {
            Err(e) => Err(e),
            Ok((c, _, s1)) => match skip_if(src, s1, TokenSpec::Semicolon) {
                Err(x) => Err(x),
                Ok(s2) => Ok((Some(c), s2)),
            },
        }
    } else {
        match advance(src, st) {
            Err(e) => Err(e),
            Ok(s1) => Ok((None, s1)),
        }
    }
}

/// The step clause of a `for` header: an assignment `ident = expr`, an
/// expression, or nothing. An `=` after anything but a variable leaves the
/// clause empty and the `=` unread.
#[verifier::opaque]
pub open spec fn for_post_spec(src: Seq<u8>, st: PState) -> PResult<Option<SpecStmt>> {
    if !(st.tok is CloseParen) && !(st.tok is OpenCurly) {
        match parse_expr_spec(src, st) {
            Err(e) => Err(e),
            Ok((e, _, s1)) => {
                if s1.tok is Equals {
                    match e {
                        SpecExpr::Variable(name) => match advance(src, s1) {
                            Err(x) => Err(x),
                            Ok(s2) => match parse_expr_spec(src, s2) {
                                Err(x) => Err(x),
                                Ok((v, _, s3)) => Ok((Some(SpecStmt::Assign { name, value: v, line: st.line }), s3)),
                            },
                        },
                        _ => Ok((None, s1)),
                    }
                } else {
                    Ok((Some(SpecStmt::Expression(e, st.line)), s1))
                }
            },
        }
    } else {
        Ok((None, st))
    }
}

pub open spec fn boxed(s: Option<SpecStmt>) -> Option<Box<SpecStmt>> {
    match s {
        Some(x) => Some(Box::new(x)),
        None => None,
    }
}

/// `for := 'for' '('? init cond post ')'? block`
pub open spec fn parse_for_spec(src: Seq<u8>, st: PState) -> PResult<SpecStmt>
    decreases pmeasure(src, st), 1nat,
{
    match advance(src, st) {
        Err(e) => Err(e),
        Ok(s1) => {
            let has_parens = s1.tok is OpenParen;
            match skip_if(src, s1, TokenSpec::OpenParen) {
                Err(e) => Err(e),
                Ok(s2) => match for_init_spec(src, s2) {
                    Err(e) => Err(e),
                    Ok((init, s3)) => match for_cond_spec(src, s3) {
                        Err(e) => Err(e),
                        Ok((cond, s4)) => match for_post_spec(src, s4) {
                            Err(e) => Err(e),
                            Ok((post, s5)) => {
                                match (if has_parens { skip_if(src, s5, TokenSpec::CloseParen) } else { Ok(s5) }) {
                                    Err(e) => Err(e),
                                    Ok(s6) => {
                                        if progressed(src, s6, st) {
                                            match parse_block_spec(src, s6) {
                                                Err(e) => Err(e),
                                                Ok((body, s7)) => Ok((
                                                    SpecStmt::For { init: boxed(init), condition: cond, post: boxed(post), body },
                                                    s7,
                                                )),
                                            }
                                        } else {
                                            Err(stalled(s6))
                                        }
                                    },
                                }
                            },
                        },
                    },
                },
            }
        },
    }
}

/// `while := 'while' '('? expr ')'? block`, read as a `for` with only a
/// condition.
pub open spec fn parse_while_spec(src: Seq<u8>, st: PState) -> PResult<SpecStmt>
    decreases pmeasure(src, st), 1nat,
{
    match advance(src, st) {
        Err(e) => Err(e),
        Ok(s1) => {
            let has_parens = s1.tok is OpenParen;
            match skip_if(src, s1, TokenSpec::OpenParen) {
                Err(e) => Err(e),
                Ok(s2) => match parse_expr_spec(src, s2) {
                    Err(e) => Err(e),
                    Ok((c, _, s3)) => {
                        let s4 = if has_parens {
                            if s3.tok is CloseParen {
                                advance(src, s3)
                            } else {
                                Err(ParseErrorSpec::ExpectedCloseParenAfterWhile { line: s3.line })
                            }
                        } else {
                            Ok(s3)
                        };
                        match s4 {
                            Err(e) => Err(e),
                            Ok(s4) => {
                                if progressed(src, s4, st) {
                                    match parse_block_spec(src, s4) {
                                        Err(e) => Err(e),
                                        Ok((body, s5)) => Ok((
                                            SpecStmt::For { init: None, condition: Some(c), post: None, body },
                                            s5,
                                        )),
                                    }
                                } else {
                                    Err(stalled(s4))
                                }
                            },
                        }
                    },
                },
            }
        },
    }
}

/// `('else' 'if' '(' expr ')' block)* ('else' block)?`, the branches read so
/// far being `acc`. The parentheses around an `else if` condition are
/// skipped without being checked.
pub open spec fn else_rest_spec(src: Seq<u8>, st: PState, acc: Seq<(SpecExpr, Seq<SpecStmt>)>)
    -> PResult<(Seq<(SpecExpr, Seq<SpecStmt>)>, Option<Seq<SpecStmt>>)>
    decreases pmeasure(src, st), 1nat,
{
    if st.tok is Else {
        proof {
            lemma_advance(src, st);
        }
        match advance(src, st) {
            Err(e) => Err(e),
            Ok(s1) => {
                if s1.tok is If {
                    match advance(src, s1) {
                        Err(e) => Err(e),
                        Ok(s2) => match advance(src, s2) {
                            Err(e) => Err(e),
                            Ok(s3) => match parse_expr_spec(src, s3) {
                                Err(e) => Err(e),
                                Ok((c, _, s4)) => match advance(src, s4) {
                                    Err(e) => Err(e),
                                    Ok(s5) => {
                                        if progressed(src, s5, st) {
                                            match parse_block_spec(src, s5) {
                                                Err(e) => Err(e),
                                                Ok((b, s6)) => {
                                                    if progressed(src, s6, st) {
                                                        else_rest_spec(src, s6, acc.push((c, b)))
                                                    } else {
                                                        Err(stalled(s6))
                                                    }
                                                },
                                            }
                                        } else {
                                            Err(stalled(s5))
                                        }
                                    },
                                },
                            },
                        },
                    }
                } else {
                    match parse_block_spec(src, s1) {
                        Err(e) => Err(e),
                        Ok((b, s2)) => Ok(((acc, Some(b)), s2)),
                    }
                }
            },
        }
    } else {
        Ok(((acc, None), st))
    }
}

/// `if := 'if' '(' expr ')' block else-branches`
pub open spec fn parse_if_spec(src: Seq<u8>, st: PState) -> PResult<SpecStmt>
    decreases pmeasure(src, st), 1nat,
{
    match advance(src, st) {
        Err(e) => Err(e),
        Ok(s1) => {
            if !(s1.tok is OpenParen) {
                Err(ParseErrorSpec::Malformed { line: s1.line })
            } else {
                match advance(src, s1) {
                    Err(e) => Err(e),
                    Ok(s2) => match parse_expr_spec(src, s2) {
                        Err(e) => Err(e),
                        Ok((c, _, s3)) => {
                            if !(s3.tok is CloseParen) {
                                Err(ParseErrorSpec::Malformed { line: s3.line })
                            } else {
                                match advance(src, s3) {
                                    Err(e) => Err(e),
                                    Ok(s4) => {
                                        if progressed(src, s4, st) {
                                            match parse_block_spec(src, s4) {
                                                Err(e) => Err(e),
                                                Ok((then_block, s5)) => {
                                                    if progressed(src, s5, st) {
                                                        match else_rest_spec(src, s5, Seq::empty()) {
                                                            Err(e) => Err(e),
                                                            Ok(((else_ifs, else_block), s6)) => Ok((
                                                                SpecStmt::If {
                                                                    condition: c,
                                                                    then_block,
                                                                    else_ifs,
                                                                    else_block,
                                                                    line: st.line,
                                                                },
                                                                s6,
                                                            )),
                                                        }
                                                    } else {
                                                        Err(stalled(s5))
                                                    }
                                                },
                                            }
                                        } else {
                                            Err(stalled(s4))
                                        }
                                    },
                                }
                            }
                        },
                    },
                }
            }
        },
    }
}

/// A statement that starts with an identifier: an assignment to a mutable
/// variable in scope, or an expression.
#[verifier::opaque]
pub open spec fn ident_stmt_spec(src: Seq<u8>, st: PState) -> PResult<SpecStmt> {
    match parse_expr_spec(src, st) {
        Err(e) => Err(e),
        Ok((expr, _, s1)) => {
            if s1.tok is Equals {
                match expr {
                    SpecExpr::Variable(name) => match advance(src, s1) {
                        Err(e) => Err(e),
                        Ok(s2) => match parse_expr_spec(src, s2) {
                            Err(e) => Err(e),
                            Ok((v, _, s3)) => match maps_lookup(s3.scopes, name) {
                                None => Err(ParseErrorSpec::UndefinedVariable { line: s3.line, name }),
                                Some(info) => {
                                    if !info.is_mutable {
                                        Err(ParseErrorSpec::NotMutable { line: s3.line, name })
                                    } else {
                                        match skip_if(src, s3, TokenSpec::Semicolon) {
                                            Err(e) => Err(e),
                                            Ok(s4) => Ok((SpecStmt::Assign { name, value: v, line: st.line }, s4)),
                                        }
                                    }
                                },
                            },
                        },
                    },
                    _ => Err(ParseErrorSpec::InvalidAssignmentTarget { line: s1.line }),
                }
            } else {
                match skip_if(src, s1, TokenSpec::Semicolon) {
                    Err(e) => Err(e),
                    Ok(s2) => Ok((SpecStmt::Expression(expr, st.line), s2)),
                }
            }
        },
    }
}

/// A statement.
pub open spec fn parse_stmt_spec(src: Seq<u8>, st: PState) -> PResult<SpecStmt>
    decreases pmeasure(src, st), 2nat,
{
    match st.tok {
        TokenSpec::Let => parse_let_spec(src, st),
        TokenSpec::Return => parse_return_spec(src, st),
        TokenSpec::If => parse_if_spec(src, st),
        TokenSpec::For => parse_for_spec(src, st),
        TokenSpec::While => parse_while_spec(src, st),
        TokenSpec::Ident(_) => ident_stmt_spec(src, st),
        _ => Err(ParseErrorSpec::UnknownStatement { line: st.line, token: st.tok }),
    }
}

/// The statements up to a closing brace or the end of input, appended to `acc`.
pub open spec fn block_items_spec(src: Seq<u8>, st: PState, acc: Seq<SpecStmt>) -> PResult<Seq<SpecStmt>>
    decreases pmeasure(src, st), 3nat,
{
    if st.tok is CloseCurly || st.tok is Eof {
        Ok((acc, st))
    } else {
        match parse_stmt_spec(src, st) {
            Err(e) => Err(e),
            Ok((s, s1)) => {
                if progressed(src, s1, st) {
                    block_items_spec(src, s1, acc.push(s))
                } else {
                    Err(stalled(s1))
                }
            },
        }
    }
}

/// `block := '{' stmt* '}'`, in a scope of its own.
pub open spec fn parse_block_spec(src: Seq<u8>, st: PState) -> PResult<Seq<SpecStmt>>
    decreases pmeasure(src, st), 4nat,
{
    if !(st.tok is OpenCurly) {
        Err(ParseErrorSpec::ExpectedOpenCurly { line: st.line })
    } else {
        proof {
            lemma_advance(src, st);
        }
        match advance(src, st) {
            Err(e) => Err(e),
            Ok(s1) => match block_items_spec(src, PState { scopes: s1.scopes.push(Map::empty()), ..s1 }, Seq::empty()) {
                Err(e) => Err(e),
                Ok((body, s2)) => {
                    if !(s2.tok is CloseCurly) {
                        Err(ParseErrorSpec::ExpectedCloseCurly { line: s2.line })
                    } else {
                        match advance(src, s2) {
                            Err(e) => Err(e),
                            Ok(s3) => Ok((body, PState { scopes: maps_pop(s3.scopes), ..s3 })),
                        }
                    }
                },
            },
        }
    }
}


// ------------------------------------------------------------ declarations

/// `params := (ident ident ','?)*` up to the closing parenthesis, appended
/// to `acc`; each parameter (a name, then a type name) is bound as a
/// read-only variable in the innermost scope.
pub open spec fn parse_params_spec(src: Seq<u8>, st: PState, acc: Seq<(Seq<char>, CelesteType)>)
    -> PResult<Seq<(Seq<char>, CelesteType)>>
    decreases pmeasure(src, st),
{
    if st.tok is CloseParen {
        Ok((acc, st))
    } else {
        match st.tok {
            TokenSpec::Ident(pn) => {
                proof {
                    lemma_advance(src, st);
                }
                match advance(src, st) {
                    Err(e) => Err(e),
                    Ok(s1) => match s1.tok {
                        TokenSpec::Ident(tn) => {
                            proof {
                                lemma_advance(src, s1);
                            }
                            match advance(src, s1) {
                                Err(e) => Err(e),
                                Ok(s2) => {
                                    let ty = type_of_name(tn);
                                    let s3 = PState { scopes: maps_add(s2.scopes, pn, declared(ty, false)), ..s2 };
                                    proof {
                                        lemma_skip_if(src, s3, TokenSpec::Comma);
                                    }
                                    match skip_if(src, s3, TokenSpec::Comma) {
                                        Err(e) => Err(e),
                                        Ok(s4) => parse_params_spec(src, s4, acc.push((pn, ty))),
                                    }
                                },
                            }
                        },
                        _ => Err(ParseErrorSpec::Malformed { line: s1.line }),
                    },
                }
            },
            _ => Err(ParseErrorSpec::Malformed { line: st.line }),
        }
    }
}

/// A function body: `'{' stmt* '}'`, in the scope that holds the parameters.
pub open spec fn parse_block_internal_spec(src: Seq<u8>, st: PState) -> PResult<Seq<SpecStmt>> {
    if !(st.tok is OpenCurly) {
        Err(ParseErrorSpec::ExpectedOpenCurly { line: st.line })
    } else {
        match advance(src, st) {
            Err(e) => Err(e),
            Ok(s1) => match block_items_spec(src, s1, Seq::empty()) {
                Err(e) => Err(e),
                Ok((body, s2)) => {
                    if !(s2.tok is CloseCurly) {
                        Err(ParseErrorSpec::ExpectedCloseCurly { line: s2.line })
                    } else {
                        match advance(src, s2) {
                            Err(e) => Err(e),
                            Ok(s3) => Ok((body, s3)),
                        }
                    }
                },
            },
        }
    }
}

pub open spec fn void_name() -> Seq<char> {
    seq!['v', 'o', 'i', 'd']
}

/// `fn := 'fn' ident '(' params ')' type? block`. The function's return type
/// (void when no type name is given) is recorded in the global table before
/// the body is read; a function that returns something must end with a
/// `return`.
#[verifier::opaque]
pub open spec fn parse_fn_decl_spec(src: Seq<u8>, st: PState) -> PResult<SpecStmt> {
    match advance(src, st) {
        Err(e) => Err(e),
        Ok(s1) => match s1.tok {
            TokenSpec::Ident(name) => match advance(src, s1) {
                Err(e) => Err(e),
                Ok(s2) => {
                    if !(s2.tok is OpenParen) {
                        Err(ParseErrorSpec::ExpectedOpenParen { line: s2.line })
                    } else {
                        match advance(src, s2) {
                            Err(e) => Err(e),
                            Ok(s3) => match parse_params_spec(src, PState { scopes: s3.scopes.push(Map::empty()), ..s3 }, Seq::empty()) {
                                Err(e) => Err(e),
                                Ok((params, s5)) => match advance(src, s5) {
                                    Err(e) => Err(e),
                                    Ok(s6) => {
                                        let ret = match s6.tok {
                                            TokenSpec::Ident(t) => t,
                                            _ => void_name(),
                                        };
                                        match (if s6.tok is Ident { advance(src, s6) } else { Ok(s6) }) {
                                            Err(e) => Err(e),
                                            Ok(s7) => {
                                                let s8 = PState { globals: s7.globals.insert(name, type_of_name(ret)), ..s7 };
                                                match parse_block_internal_spec(src, s8) {
                                                    Err(e) => Err(e),
                                                    Ok((body, s9)) => {
                                                        if ret != void_name() && body.len() == 0 {
                                                            Err(ParseErrorSpec::EmptyBodyNeedsReturn { line: s9.line, name })
                                                        } else if ret != void_name() && !(body.last() is Return) {
                                                            Err(ParseErrorSpec::MissingReturn { line: s9.line, name })
                                                        } else {
                                                            Ok((
                                                                SpecStmt::Function { name, params, return_type: ret, body },
                                                                PState { scopes: maps_pop(s9.scopes), ..s9 },
                                                            ))
                                                        }
                                                    },
                                                }
                                            },
                                        }
                                    },
                                },
                            },
                        }
                    }
                },
            },
            _ => Err(ParseErrorSpec::ExpectedFunctionName { line: s1.line }),
        },
    }
}

/// The parameter types of an external function, appended to `acc`, up to
/// its closing parenthesis, and whether `...` marks it variadic. A token
/// that is neither a type name, a comma, `...` nor `)` would be looked at
/// forever: that is reported as stalled.
pub open spec fn extern_params_spec(src: Seq<u8>, st: PState, acc: Seq<CelesteType>) -> PResult<(Seq<CelesteType>, bool)>
    decreases pmeasure(src, st),
{
    if st.tok is CloseParen {
        Ok(((acc, false), st))
    } else if st.tok is Ellipsis {
        match advance(src, st) {
            Err(e) => Err(e),
            Ok(s1) => Ok(((acc, true), s1)),
        }
    } else if !(st.tok is Ident) && !(st.tok is Comma) {
        Err(stalled(st))
    } else {
        proof {
            lemma_advance(src, st);
        }
        let r1 = match st.tok {
            TokenSpec::Ident(t) => match advance(src, st) {
                Err(e) => Err(e),
                Ok(s1) => Ok((acc.push(type_of_name(t)), s1)),
            },
            _ => Ok((acc, st)),
        };
        match r1 {
            Err(e) => Err(e),
            Ok((acc1, s1)) => {
                proof {
                    lemma_advance(src, s1);
                }
                match skip_if(src, s1, TokenSpec::Comma) {
                    Err(e) => Err(e),
                    Ok(s2) => extern_params_spec(src, s2, acc1),
                }
            },
        }
    }
}

/// `extrn := 'extrn' 'fn' ident '(' types ('...')? ')' type? ';'?`. The
/// opening parenthesis is skipped without being checked; the return type
/// (void when none is given) is recorded in the global table.
#[verifier::opaque]
pub open spec fn parse_extrn_spec(src: Seq<u8>, st: PState) -> PResult<SpecStmt> {
    match advance(src, st) {
        Err(e) => Err(e),
        Ok(s1) => {
            if !(s1.tok is Fn) {
                Err(ParseErrorSpec::Malformed { line: s1.line })
            } else {
                match advance(src, s1) {
                    Err(e) => Err(e),
                    Ok(s2) => match s2.tok {
                        TokenSpec::Ident(name) => match advance(src, s2) {
                            Err(e) => Err(e),
                            Ok(s3) => match advance(src, s3) {
                                Err(e) => Err(e),
                                Ok(s4) => match extern_params_spec(src, s4, Seq::empty()) {
                                    Err(e) => Err(e),
                                    Ok(((arg_types, is_variadic), s5)) => match advance(src, s5) {
                                        Err(e) => Err(e),
                                        Ok(s6) => {
                                            let return_type = match s6.tok {
                                                TokenSpec::Ident(t) => type_of_name(t),
                                                _ => CelesteType::Void,
                                            };
                                            match (if s6.tok is Ident { advance(src, s6) } else { Ok(s6) }) {
                                                Err(e) => Err(e),
                                                Ok(s7) => {
                                                    match skip_if(src, s7, TokenSpec::Semicolon) {
                                                        Err(e) => Err(e),
                                                        Ok(s8) => Ok((
                                                            SpecStmt::Extern { name, arg_types, return_type, is_variadic },
                                                            PState { globals: s8.globals.insert(name, return_type), ..s8 },
                                                        )),
                                                    }
                                                },
                                            }
                                        },
                                    },
                                },
                            },
                        },
                        _ => Err(ParseErrorSpec::Malformed { line: s2.line }),
                    },
                }
            }
        },
    }
}

/// A top-level declaration: a function or an external function.
pub open spec fn parse_top_level_spec(src: Seq<u8>, st: PState) -> PResult<SpecStmt> {
    match st.tok {
        TokenSpec::Fn => parse_fn_decl_spec(src, st),
        TokenSpec::Extrn => parse_extrn_spec(src, st),
        _ => Err(ParseErrorSpec::UnexpectedTopLevel { line: st.line, token: st.tok }),
    }
}

/// `include := 'include' string ';'?`: the path to include.
pub open spec fn parse_include_spec(src: Seq<u8>, st: PState) -> PResult<Seq<char>> {
    match advance(src, st) {
        Err(e) => Err(e),
        Ok(s1) => match s1.tok {
            TokenSpec::StringLiteral(path) => match advance(src, s1) {
                Err(e) => Err(e),
                Ok(s2) => match skip_if(src, s2, TokenSpec::Semicolon) {
                    Err(e) => Err(e),
                    Ok(s3) => Ok((path, s3)),
                },
            },
            _ => Err(ParseErrorSpec::ExpectedIncludePath { line: s1.line }),
        },
    }
}

/// What one step of reading a program gives.
pub enum StepSpec {
    Done,
    Item(SpecStmt),
    Include(Seq<char>),
}

/// One step of reading a program: the end of input, an include directive,
/// or a top-level declaration.
pub open spec fn parse_step_spec(src: Seq<u8>, st: PState) -> PResult<StepSpec> {
    if st.tok is Eof {
        Ok((StepSpec::Done, st))
    } else if st.tok is Include {
        match parse_include_spec(src, st) {
            Err(e) => Err(e),
            Ok((p, s1)) => Ok((StepSpec::Include(p), s1)),
        }
    } else {
        match parse_top_level_spec(src, st) {
            Err(e) => Err(e),
            Ok((d, s1)) => Ok((StepSpec::Item(d), s1)),
        }
    }
}

} // verus!
