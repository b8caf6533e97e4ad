use vstd::prelude::*;
use crate::ast::{CelesteType, Expr, Program, Stmt, Param, SpecExpr, SpecStmt, stmts_view, exprs_view, else_ifs_view, params_view};
use crate::compiler::{Compiler, VariableInfo, str_equal, maps_add};
use crate::grammar::{PState, ParseErrorSpec, pstate, pmeasure, progressed, advance, skip_if, lemma_advance, parse_primary_spec, parse_ident_spec, parse_args_spec, mul_rest_spec, parse_multiplicative_spec, add_rest_spec, parse_additive_spec, cmp_rest_spec, parse_comparison_spec, parse_expr_spec, declared, boxed, parse_let_spec, parse_return_spec, for_init_spec, for_cond_spec, for_post_spec, parse_for_spec, parse_while_spec, else_rest_spec, parse_if_spec, ident_stmt_spec, parse_stmt_spec, block_items_spec, parse_block_spec, parse_params_spec, parse_block_internal_spec, void_name, parse_fn_decl_spec, extern_params_spec, parse_extrn_spec, parse_top_level_spec, parse_include_spec, StepSpec, parse_step_spec, lemma_skip_if};
use crate::lexer::{lexe, LexError, token_weight};
use crate::tokens::{TokenSpec, TokenType};

verus! {

/// Whether `c` has the Unicode `White_Space` property, the whitespace that
/// `str::trim` removes.
pub open spec fn is_unicode_whitespace(c: char) -> bool {
    let u = c as u32;
    ||| 0x09 <= u <= 0x0D
    ||| u == 0x20
    ||| u == 0x85
    ||| u == 0xA0
    ||| u == 0x1680
    ||| 0x2000 <= u <= 0x200A
    ||| u == 0x2028
    ||| u == 0x2029
    ||| u == 0x202F
    ||| u == 0x205F
    ||| u == 0x3000
}

/// `s` with its leading and trailing whitespace removed.
pub open spec fn trim_spec(s: Seq<char>) -> Seq<char>
    decreases s.len(),
{
    if s.len() > 0 && is_unicode_whitespace(s[0]) {
        trim_spec(s.drop_first())
    } else if s.len() > 0 && is_unicode_whitespace(s.last()) {
        trim_spec(s.drop_last())
    } else {
        s
    }
}

/// A wrapper around `str::trim`: the string without leading and trailing
/// whitespace, whitespace being the characters with the Unicode `White_Space`
/// property.
#[verifier::external_body]
fn str_trim(s: &str) -> (r: &str)
    ensures
        r@ == trim_spec(s@),
{
    s.trim()
}

/// The type that a type annotation names.
pub open spec fn type_of_name(s: Seq<char>) -> CelesteType {
    let t = trim_spec(s);
    if t == seq!['i', 'n', 't'] {
        CelesteType::Int
    } else if t == seq!['s', 't', 'r', 'i', 'n', 'g'] {
        CelesteType::String
    } else {
        CelesteType::Void
    }
}

/// The type named by a type annotation: `int` and `string` (surrounding
/// whitespace ignored) name the integer and string types; every other name
/// stands for `void`.
pub fn string_to_celeste_type(s: &str) -> (r: CelesteType)
    ensures
        r == type_of_name(s@),
{
    let t = str_trim(s);
    let int_name = "int";
    let string_name = "string";
    proof {
        reveal_strlit("int");
        reveal_strlit("string");
        assert(int_name@ =~= seq!['i', 'n', 't']);
        assert(string_name@ =~= seq!['s', 't', 'r', 'i', 'n', 'g']);
    }
    if str_equal(t, int_name) {
        CelesteType::Int
    } else if str_equal(t, string_name) {
        CelesteType::String
    } else {
        CelesteType::Void
    }
}


/// Why parsing stopped.
#[derive(Debug)]
pub enum ParseError {
    Lex(LexError),
    ExpectedIncludePath { line: usize },
    UnexpectedTopLevel { line: usize, token: TokenType },
    ExpectedFunctionName { line: usize },
    ExpectedOpenParen { line: usize },
    ExpectedCloseParen { line: usize },
    ExpectedCloseParenAfterWhile { line: usize },
    ExpectedOpenCurly { line: usize },
    ExpectedCloseCurly { line: usize },
    ExpectedEquals { line: usize },
    MissingReturn { line: usize, name: String },
    EmptyBodyNeedsReturn { line: usize, name: String },
    UndefinedVariable { line: usize, name: String },
    NotMutable { line: usize, name: String },
    InvalidAssignmentTarget { line: usize },
    UnknownStatement { line: usize, token: TokenType },
    ExpectedExpression { line: usize, token: TokenType },
    /// A malformed declaration or statement that has no message of its own.
    Malformed { line: usize },
    /// The input would make the parser read the same token forever.
    Stalled { line: usize },
}

impl View for ParseError {
    type V = ParseErrorSpec;

    open spec fn view(&self) -> ParseErrorSpec {
        match self {
            ParseError::Lex(e) => ParseErrorSpec::Lex(e@),
            ParseError::ExpectedIncludePath { line } => ParseErrorSpec::ExpectedIncludePath { line: *line as nat },
            ParseError::UnexpectedTopLevel { line, token } => ParseErrorSpec::UnexpectedTopLevel { line: *line as nat, token: token@ },
            ParseError::ExpectedFunctionName { line } => ParseErrorSpec::ExpectedFunctionName { line: *line as nat },
            ParseError::ExpectedOpenParen { line } => ParseErrorSpec::ExpectedOpenParen { line: *line as nat },
            ParseError::ExpectedCloseParen { line } => ParseErrorSpec::ExpectedCloseParen { line: *line as nat },
            ParseError::ExpectedCloseParenAfterWhile { line } => ParseErrorSpec::ExpectedCloseParenAfterWhile { line: *line as nat },
            ParseError::ExpectedOpenCurly { line } => ParseErrorSpec::ExpectedOpenCurly { line: *line as nat },
            ParseError::ExpectedCloseCurly { line } => ParseErrorSpec::ExpectedCloseCurly { line: *line as nat },
            ParseError::ExpectedEquals { line } => ParseErrorSpec::ExpectedEquals { line: *line as nat },
            ParseError::MissingReturn { line, name } => ParseErrorSpec::MissingReturn { line: *line as nat, name: name@ },
            ParseError::EmptyBodyNeedsReturn { line, name } => ParseErrorSpec::EmptyBodyNeedsReturn { line: *line as nat, name: name@ },
            ParseError::UndefinedVariable { line, name } => ParseErrorSpec::UndefinedVariable { line: *line as nat, name: name@ },
            ParseError::NotMutable { line, name } => ParseErrorSpec::NotMutable { line: *line as nat, name: name@ },
            ParseError::InvalidAssignmentTarget { line } => ParseErrorSpec::InvalidAssignmentTarget { line: *line as nat },
            ParseError::UnknownStatement { line, token } => ParseErrorSpec::UnknownStatement { line: *line as nat, token: token@ },
            ParseError::ExpectedExpression { line, token } => ParseErrorSpec::ExpectedExpression { line: *line as nat, token: token@ },
            ParseError::Malformed { line } => ParseErrorSpec::Malformed { line: *line as nat },
            ParseError::Stalled { line } => ParseErrorSpec::Stalled { line: *line as nat },
        }
    }
}

/// `a` and `b` parse the same source in the same file, with the same local
/// and function tables.
pub open spec fn same_source(a: Compiler, b: Compiler) -> bool {
    &&& a.src == b.src
    &&& a.filename == b.filename
    &&& a.locals == b.locals
    &&& a.functions == b.functions
}

fn weight(t: &TokenType) -> (w: u8)
    ensures
        w == token_weight(t@),
{
    match t {
        TokenType::Eof => 0,
        TokenType::Int(_) => 0,
        _ => 1,
    }
}

/// Whether the parser has come closer to the end of input than it was at
/// position `index` with a current token of weight `w`.
fn progressed_since(comp: &Compiler, index: usize, w: u8, Ghost(before): Ghost<PState>) -> (r: bool)
    requires
        comp.wf(),
        before.index == index,
        index <= comp.src@.len(),
        w == token_weight(before.tok),
    ensures
        r == progressed(comp.src@, pstate(*comp), before),
{
    comp.index > index || (comp.index == index && weight(&comp.cur_tok) < w)
}

/// Reads the next token.
fn next_token(comp: &mut Compiler) -> (r: Result<(), ParseError>)
    requires
        old(comp).wf(),
    ensures
        same_source(*final(comp), *old(comp)),
        match advance(old(comp).src@, pstate(*old(comp))) {
            Ok(s) => r is Ok && pstate(*final(comp)) == s && final(comp).wf(),
            Err(e) => r matches Err(x) && x@ == e,
        },
        r is Ok ==> pmeasure(old(comp).src@, pstate(*final(comp))) + token_weight(old(comp).cur_tok@)
            <= pmeasure(old(comp).src@, pstate(*old(comp))),
{
    proof {
        lemma_advance(comp.src@, pstate(*comp));
    }
    match lexe(comp) {
        Ok(()) => Ok(()),
        Err(e) => Err(ParseError::Lex(e)),
    }
}

/// Reads the current token if it is a semicolon.
fn skip_semicolon(comp: &mut Compiler) -> (r: Result<(), ParseError>)
    requires
        old(comp).wf(),
    ensures
        same_source(*final(comp), *old(comp)),
        match skip_if(old(comp).src@, pstate(*old(comp)), TokenSpec::Semicolon) {
            Ok(s) => r is Ok && pstate(*final(comp)) == s && final(comp).wf(),
            Err(e) => r matches Err(x) && x@ == e,
        },
        r is Ok ==> pmeasure(old(comp).src@, pstate(*final(comp))) <= pmeasure(old(comp).src@, pstate(*old(comp))),
{
    if let TokenType::Semicolon = comp.cur_tok {
        next_token(comp)
    } else {
        Ok(())
    }
}

/// Reads the current token if it is a comma.
fn skip_comma(comp: &mut Compiler) -> (r: Result<(), ParseError>)
    requires
        old(comp).wf(),
    ensures
        same_source(*final(comp), *old(comp)),
        match skip_if(old(comp).src@, pstate(*old(comp)), TokenSpec::Comma) {
            Ok(s) => r is Ok && pstate(*final(comp)) == s && final(comp).wf(),
            Err(e) => r matches Err(x) && x@ == e,
        },
        r is Ok ==> pmeasure(old(comp).src@, pstate(*final(comp))) <= pmeasure(old(comp).src@, pstate(*old(comp))),
{
    if let TokenType::Comma = comp.cur_tok {
        next_token(comp)
    } else {
        Ok(())
    }
}

fn make_call(name: String, args: Vec<Expr>) -> (e: Expr)
    ensures
        e@ == (SpecExpr::Call { name: name@, args: exprs_view(args@) }),
{
    let ghost a = args@;
    let call = Expr::Call { name, args };
    proof {
        assert(call@->args =~= exprs_view(a));
    }
    call
}

/// A primary expression that starts with the identifier `name`, which is
/// the current token.
#[verifier::rlimit(40)]
fn parse_ident(comp: &mut Compiler, name: String) -> (r: Result<(Expr, CelesteType), ParseError>)
    requires
        old(comp).wf(),
        old(comp).cur_tok@ == TokenSpec::Ident(name@),
    ensures
        same_source(*final(comp), *old(comp)),
        match parse_ident_spec(old(comp).src@, pstate(*old(comp)), name@) {
            Ok((e, t, s)) => r matches Ok((x, ty)) && x@ == e && ty == t && pstate(*final(comp)) == s && final(comp).wf(),
            Err(e) => r matches Err(x) && x@ == e,
        },
        r is Ok ==> pmeasure(old(comp).src@, pstate(*final(comp))) + token_weight(old(comp).cur_tok@)
            <= pmeasure(old(comp).src@, pstate(*old(comp))),
    decreases pmeasure(old(comp).src@, pstate(*old(comp))), 0nat,
{
    if let Err(e) = next_token(comp) {
        return Err(e);
    }
    if let TokenType::OpenParen = comp.cur_tok {
        if let Err(e) = next_token(comp) {
            return Err(e);
        }
        let mut args: Vec<Expr> = Vec::new();
        assert(exprs_view(args@) =~= Seq::<SpecExpr>::empty());
        if let Err(e) = parse_args(comp, &mut args) {
            return Err(e);
        }
        if let Err(e) = next_token(comp) {
            return Err(e);
        }
        let ret_ty = match comp.globals.get(name.as_str()) {
            Some(t) => t.duplicate(),
            None => CelesteType::Int,
        };
        let call = make_call(name, args);
        Ok((call, ret_ty))
    } else {
        match comp.lookup_variable(name.as_str()) {
            Some(info) => {
                let ty = info.var_type.duplicate();
                Ok((Expr::Variable(name), ty))
            }
            None => Err(ParseError::UndefinedVariable { line: comp.line, name }),
        }
    }
}

#[verifier::rlimit(40)]
fn parse_primary(comp: &mut Compiler) -> (r: Result<(Expr, CelesteType), ParseError>)
    requires
        old(comp).wf(),
    ensures
        same_source(*final(comp), *old(comp)),
        match parse_primary_spec(old(comp).src@, pstate(*old(comp))) {
            Ok((e, t, s)) => r matches Ok((x, ty)) && x@ == e && ty == t && pstate(*final(comp)) == s && final(comp).wf(),
            Err(e) => r matches Err(x) && x@ == e,
        },
        r is Ok ==> pmeasure(old(comp).src@, pstate(*final(comp))) + token_weight(old(comp).cur_tok@)
            <= pmeasure(old(comp).src@, pstate(*old(comp))),
    decreases pmeasure(old(comp).src@, pstate(*old(comp))), 1nat,
{
    match &comp.cur_tok {
        TokenType::Int(n) => {
            let n = *n;
            if let Err(e) = next_token(comp) {
                return Err(e);
            }
            Ok((Expr::Integer(n), CelesteType::Int))
        }
        TokenType::StringLiteral(s) => {
            let s = s.clone();
            if let Err(e) = next_token(comp) {
                return Err(e);
            }
            Ok((Expr::StringLiteral(s), CelesteType::String))
        }
        TokenType::Ident(name) => {
            let name = name.clone();
            parse_ident(comp, name)
        }
        TokenType::OpenParen => {
            if let Err(e) = next_token(comp) {
                return Err(e);
            }
            let (e, t) = match parse_expr(comp) {
                Ok(v) => v,
                Err(e) => return Err(e),
            };
            if let TokenType::CloseParen = comp.cur_tok {
                if let Err(e) = next_token(comp) {
                    return Err(e);
                }
                Ok((e, t))
            } else {
                Err(ParseError::ExpectedCloseParen { line: comp.line })
            }
        }
        _ => Err(ParseError::ExpectedExpression { line: comp.line, token: comp.cur_tok.duplicate() }),
    }
}


/// Reads the arguments of a call up to its closing parenthesis, appending
/// them to `args`.
#[verifier::rlimit(40)]
fn parse_args(comp: &mut Compiler, args: &mut Vec<Expr>) -> (r: Result<(), ParseError>)
    requires
        old(comp).wf(),
    ensures
        same_source(*final(comp), *old(comp)),
        match parse_args_spec(old(comp).src@, pstate(*old(comp)), exprs_view(old(args)@)) {
            Ok((a, s)) => r is Ok && exprs_view(final(args)@) == a && pstate(*final(comp)) == s && final(comp).wf(),
            Err(e) => r matches Err(x) && x@ == e,
        },
        r is Ok ==> pmeasure(old(comp).src@, pstate(*final(comp))) <= pmeasure(old(comp).src@, pstate(*old(comp))),
    decreases pmeasure(old(comp).src@, pstate(*old(comp))), 9nat,
{
    let ghost st0 = pstate(*comp);
    let ghost acc0 = exprs_view(args@);
    loop
        invariant
            comp.wf(),
            same_source(*comp, *old(comp)),
            parse_args_spec(comp.src@, st0, acc0) == parse_args_spec(comp.src@, pstate(*comp), exprs_view(args@)),
            pmeasure(comp.src@, pstate(*comp)) <= pmeasure(comp.src@, st0),
            st0 == pstate(*old(comp)),
            acc0 == exprs_view(old(args)@),
        decreases pmeasure(comp.src@, pstate(*comp)),
    {
        if let TokenType::CloseParen = comp.cur_tok {
            return Ok(());
        }
        let ghost st = pstate(*comp);
        let start_index = comp.index;
        let start_w = weight(&comp.cur_tok);
        let (e, _) = match parse_expr(comp) {
            Ok(v) => v,
            Err(x) => return Err(x),
        };
        if let Err(x) = skip_comma(comp) {
            return Err(x);
        }
        if progressed_since(comp, start_index, start_w, Ghost(st)) {
            let ghost before = exprs_view(args@);
            args.push(e);
            proof {
                assert(exprs_view(args@) =~= before.push(e@));
            }
        } else if let TokenType::Eof = comp.cur_tok {
            return Err(ParseError::ExpectedExpression { line: comp.line, token: TokenType::Eof });
        } else {
            return Err(ParseError::Stalled { line: comp.line });
        }
    }
}

/// `multiplicative := primary (('*' | '/') primary)*`
#[verifier::rlimit(40)]
fn parse_multiplicative(comp: &mut Compiler) -> (r: Result<(Expr, CelesteType), ParseError>)
    requires
        old(comp).wf(),
    ensures
        same_source(*final(comp), *old(comp)),
        match parse_multiplicative_spec(old(comp).src@, pstate(*old(comp))) {
            Ok((e, t, s)) => r matches Ok((x, ty)) && x@ == e && ty == t && pstate(*final(comp)) == s && final(comp).wf(),
            Err(e) => r matches Err(x) && x@ == e,
        },
        r is Ok ==> pmeasure(old(comp).src@, pstate(*final(comp))) + token_weight(old(comp).cur_tok@)
            <= pmeasure(old(comp).src@, pstate(*old(comp))),
    decreases pmeasure(old(comp).src@, pstate(*old(comp))), 3nat,
{
    let (mut lhs, mut lhs_ty) = match parse_primary(comp) {
        Ok(v) => v,
        Err(e) => return Err(e),
    };
    let ghost s1 = pstate(*comp);
    loop
        invariant
            comp.wf(),
            same_source(*comp, *old(comp)),
            pmeasure(comp.src@, pstate(*comp)) <= pmeasure(comp.src@, s1),
            pmeasure(comp.src@, s1) + token_weight(old(comp).cur_tok@) <= pmeasure(comp.src@, pstate(*old(comp))),
            parse_multiplicative_spec(comp.src@, pstate(*old(comp))) == mul_rest_spec(comp.src@, pstate(*comp), lhs@, lhs_ty),
        decreases pmeasure(comp.src@, pstate(*comp)),
    {
        let op = match comp.cur_tok {
            TokenType::Star => '*',
            TokenType::Slash => '/',
            _ => return Ok((lhs, lhs_ty)),
        };
        let ghost st = pstate(*comp);
        if let Err(e) = next_token(comp) {
            return Err(e);
        }
        let (rhs, _) = match parse_primary(comp) {
            Ok(v) => v,
            Err(e) => return Err(e),
        };
        lhs = Expr::Binary { op, lhs: Box::new(lhs), rhs: Box::new(rhs) };
        lhs_ty = CelesteType::Int;
        assert(progressed(comp.src@, pstate(*comp), st));
    }
}

/// `additive := multiplicative (('+' | '-') multiplicative)*`
#[verifier::rlimit(40)]
fn parse_additive(comp: &mut Compiler) -> (r: Result<(Expr, CelesteType), ParseError>)
    requires
        old(comp).wf(),
    ensures
        same_source(*final(comp), *old(comp)),
        match parse_additive_spec(old(comp).src@, pstate(*old(comp))) {
            Ok((e, t, s)) => r matches Ok((x, ty)) && x@ == e && ty == t && pstate(*final(comp)) == s && final(comp).wf(),
            Err(e) => r matches Err(x) && x@ == e,
        },
        r is Ok ==> pmeasure(old(comp).src@, pstate(*final(comp))) + token_weight(old(comp).cur_tok@)
            <= pmeasure(old(comp).src@, pstate(*old(comp))),
    decreases pmeasure(old(comp).src@, pstate(*old(comp))), 5nat,
{
    let (mut lhs, mut lhs_ty) = match parse_multiplicative(comp) {
        Ok(v) => v,
        Err(e) => return Err(e),
    };
    let ghost s1 = pstate(*comp);
    loop
        invariant
            comp.wf(),
            same_source(*comp, *old(comp)),
            pmeasure(comp.src@, pstate(*comp)) <= pmeasure(comp.src@, s1),
            pmeasure(comp.src@, s1) + token_weight(old(comp).cur_tok@) <= pmeasure(comp.src@, pstate(*old(comp))),
            parse_additive_spec(comp.src@, pstate(*old(comp))) == add_rest_spec(comp.src@, pstate(*comp), lhs@, lhs_ty),
        decreases pmeasure(comp.src@, pstate(*comp)),
    {
        let op = match comp.cur_tok {
            TokenType::Plus => '+',
            TokenType::Minus => '-',
            _ => return Ok((lhs, lhs_ty)),
        };
        let ghost st = pstate(*comp);
        if let Err(e) = next_token(comp) {
            return Err(e);
        }
        let (rhs, _) = match parse_multiplicative(comp) {
            Ok(v) => v,
            Err(e) => return Err(e),
        };
        lhs = Expr::Binary { op, lhs: Box::new(lhs), rhs: Box::new(rhs) };
        lhs_ty = CelesteType::Int;
        assert(progressed(comp.src@, pstate(*comp), st));
    }
}

/// `comparison := additive (('<' | '>' | '==') additive)*`
#[verifier::rlimit(40)]
fn parse_comparison(comp: &mut Compiler) -> (r: Result<(Expr, CelesteType), ParseError>)
    requires
        old(comp).wf(),
    ensures
        same_source(*final(comp), *old(comp)),
        match parse_comparison_spec(old(comp).src@, pstate(*old(comp))) {
            Ok((e, t, s)) => r matches Ok((x, ty)) && x@ == e && ty == t && pstate(*final(comp)) == s && final(comp).wf(),
            Err(e) => r matches Err(x) && x@ == e,
        },
        r is Ok ==> pmeasure(old(comp).src@, pstate(*final(comp))) + token_weight(old(comp).cur_tok@)
            <= pmeasure(old(comp).src@, pstate(*old(comp))),
    decreases pmeasure(old(comp).src@, pstate(*old(comp))), 7nat,
{
    let (mut lhs, mut lhs_ty) = match parse_additive(comp) {
        Ok(v) => v,
        Err(e) => return Err(e),
    };
    let ghost s1 = pstate(*comp);
    loop
        invariant
            comp.wf(),
            same_source(*comp, *old(comp)),
            pmeasure(comp.src@, pstate(*comp)) <= pmeasure(comp.src@, s1),
            pmeasure(comp.src@, s1) + token_weight(old(comp).cur_tok@) <= pmeasure(comp.src@, pstate(*old(comp))),
            parse_comparison_spec(comp.src@, pstate(*old(comp))) == cmp_rest_spec(comp.src@, pstate(*comp), lhs@, lhs_ty),
        decreases pmeasure(comp.src@, pstate(*comp)),
    {
        let op = match comp.cur_tok {
            TokenType::Less => '<',
            TokenType::Greater => '>',
            TokenType::DoubleEquals => '=',
            _ => return Ok((lhs, lhs_ty)),
        };
        let ghost st = pstate(*comp);
        if let Err(e) = next_token(comp) {
            return Err(e);
        }
        let (rhs, _) = match parse_additive(comp) {
            Ok(v) => v,
            Err(e) => return Err(e),
        };
        lhs = Expr::Binary { op, lhs: Box::new(lhs), rhs: Box::new(rhs) };
        lhs_ty = CelesteType::Int;
        assert(progressed(comp.src@, pstate(*comp), st));
    }
}

/// An expression, and the type that the parser gives it.
fn parse_expr(comp: &mut Compiler) -> (r: Result<(Expr, CelesteType), ParseError>)
    requires
        old(comp).wf(),
    ensures
        same_source(*final(comp), *old(comp)),
        match parse_expr_spec(old(comp).src@, pstate(*old(comp))) {
            Ok((e, t, s)) => r matches Ok((x, ty)) && x@ == e && ty == t && pstate(*final(comp)) == s && final(comp).wf(),
            Err(e) => r matches Err(x) && x@ == e,
        },
        r is Ok ==> pmeasure(old(comp).src@, pstate(*final(comp))) + token_weight(old(comp).cur_tok@)
            <= pmeasure(old(comp).src@, pstate(*old(comp))),
    decreases pmeasure(old(comp).src@, pstate(*old(comp))), 8nat,
{
    parse_comparison(comp)
}


// ----------------------------------------------------------------- statements

fn make_for(init: Option<Stmt>, condition: Option<Expr>, post: Option<Stmt>, body: Vec<Stmt>) -> (r: Stmt)
    ensures
        r@ == (SpecStmt::For {
            init: boxed(match init { Some(i) => Some(i@), None => None }),
            condition: match condition { Some(c) => Some(c@), None => None },
            post: boxed(match post { Some(p) => Some(p@), None => None }),
            body: stmts_view(body@),
        }),
{
    let ghost b = body@;
    let init = match init {
        Some(i) => Some(Box::new(i)),
        None => None,
    };
    let post = match post {
        Some(p) => Some(Box::new(p)),
        None => None,
    };
    let r = Stmt::For { init, condition, post, body };
    proof {
        assert(r@->For_body =~= stmts_view(b));
    }
    r
}

fn make_if(condition: Expr, then_block: Vec<Stmt>, else_ifs: Vec<(Expr, Vec<Stmt>)>, else_block: Option<Vec<Stmt>>, line: usize) -> (r: Stmt)
    ensures
        r@ == (SpecStmt::If {
            condition: condition@,
            then_block: stmts_view(then_block@),
            else_ifs: else_ifs_view(else_ifs@),
            else_block: match else_block { Some(b) => Some(stmts_view(b@)), None => None },
            line: line as nat,
        }),
{
    let ghost t = then_block@;
    let ghost e = else_ifs@;
    let ghost b = else_block;
    let r = Stmt::If { condition, then_block, else_ifs, else_block, line };
    proof {
        assert(r@->If_then_block =~= stmts_view(t));
        assert forall|i: int| 0 <= i < e.len() implies #[trigger] r@->If_else_ifs[i] == else_ifs_view(e)[i] by {
            assert(r@->If_else_ifs[i].1 =~= stmts_view(e[i].1@));
        }
        assert(r@->If_else_ifs =~= else_ifs_view(e));
        if let Some(bb) = b {
            assert(r@->If_else_block->0 =~= stmts_view(bb@));
        }
    }
    r
}

fn parse_let_stmt(comp: &mut Compiler) -> (r: Result<Stmt, ParseError>)
    requires
        old(comp).wf(),
    ensures
        same_source(*final(comp), *old(comp)),
        match parse_let_spec(old(comp).src@, pstate(*old(comp))) {
            Ok((v, s)) => r matches Ok(x) && x@ == v && pstate(*final(comp)) == s && final(comp).wf(),
            Err(e) => r matches Err(x) && x@ == e,
        },
        r is Ok ==> pmeasure(old(comp).src@, pstate(*final(comp))) + token_weight(old(comp).cur_tok@)
            <= pmeasure(old(comp).src@, pstate(*old(comp))),
{
    proof {
        reveal(parse_let_spec);
    }
    let line = comp.line;
    if let Err(e) = next_token(comp) {
        return Err(e);
    }
    let is_mutable = matches!(comp.cur_tok, TokenType::Mut);
    if is_mutable {
        if let Err(e) = next_token(comp) {
            return Err(e);
        }
    }
    let var_name = match &comp.cur_tok {
        TokenType::Ident(n) => n.clone(),
        _ => return Err(ParseError::Malformed { line: comp.line }),
    };
    if let Err(e) = next_token(comp) {
        return Err(e);
    }
    if !matches!(comp.cur_tok, TokenType::Equals) {
        return Err(ParseError::ExpectedEquals { line: comp.line });
    }
    if let Err(e) = next_token(comp) {
        return Err(e);
    }
    let (value_expr, value_type) = match parse_expr(comp) {
        Ok(v) => v,
        Err(e) => return Err(e),
    };
    if let Err(e) = skip_semicolon(comp) {
        return Err(e);
    }
    comp.add_variable(
        var_name.clone(),
        VariableInfo { stack_slot: None, var_type: value_type, is_mutable, cranelift_var: None },
    );
    Ok(Stmt::Let { name: var_name, value: Box::new(value_expr), line })
}

fn parse_return_stmt(comp: &mut Compiler) -> (r: Result<Stmt, ParseError>)
    requires
        old(comp).wf(),
    ensures
        same_source(*final(comp), *old(comp)),
        match parse_return_spec(old(comp).src@, pstate(*old(comp))) {
            Ok((v, s)) => r matches Ok(x) && x@ == v && pstate(*final(comp)) == s && final(comp).wf(),
            Err(e) => r matches Err(x) && x@ == e,
        },
        r is Ok ==> pmeasure(old(comp).src@, pstate(*final(comp))) + token_weight(old(comp).cur_tok@)
            <= pmeasure(old(comp).src@, pstate(*old(comp))),
{
    proof {
        reveal(parse_return_spec);
    }
    let line = comp.line;
    if let Err(e) = next_token(comp) {
        return Err(e);
    }
    if let TokenType::Semicolon = comp.cur_tok {
        if let Err(e) = next_token(comp) {
            return Err(e);
        }
        return Ok(Stmt::Return { value: Expr::Integer(0), line });
    }
    let (val_expr, _) = match parse_expr(comp) {
        Ok(v) => v,
        Err(e) => return Err(e),
    };
    if let Err(e) = skip_semicolon(comp) {
        return Err(e);
    }
    Ok(Stmt::Return { value: val_expr, line })
}

fn for_init(comp: &mut Compiler) -> (r: Result<Option<Stmt>, ParseError>)
    requires
        old(comp).wf(),
    ensures
        same_source(*final(comp), *old(comp)),
        match for_init_spec(old(comp).src@, pstate(*old(comp))) {
            Ok((v, s)) => r matches Ok(x) && (match x { Some(i) => v == Some(i@), None => v is None })
                && pstate(*final(comp)) == s && final(comp).wf(),
            Err(e) => r matches Err(x) && x@ == e,
        },
        r is Ok ==> pmeasure(old(comp).src@, pstate(*final(comp))) <= pmeasure(old(comp).src@, pstate(*old(comp))),
{
    proof {
        reveal(for_init_spec);
    }
    if !matches!(comp.cur_tok, TokenType::Semicolon) {
        if let TokenType::Let = comp.cur_tok {
            match parse_let_stmt(comp) {
                Ok(i) => Ok(Some(i)),
                Err(e) => Err(e),
            }
        } else {
            let line = comp.line;
            let (e, _) = match parse_expr(comp) {
                Ok(v) => v,
                Err(x) => return Err(x),
            };
            if let Err(x) = skip_semicolon(comp) {
                return Err(x);
            }
            Ok(Some(Stmt::Expression(e, line)))
        }
    } else {
        match next_token(comp) {
            Ok(()) => Ok(None),
            Err(e) => Err(e),
        }
    }
}

fn for_cond(comp: &mut Compiler) -> (r: Result<Option<Expr>, ParseError>)
    requires
        old(comp).wf(),
    ensures
        same_source(*final(comp), *old(comp)),
        match for_cond_spec(old(comp).src@, pstate(*old(comp))) {
            Ok((v, s)) => r matches Ok(x) && (match x { Some(c) => v == Some(c@), None => v is None })
                && pstate(*final(comp)) == s && final(comp).wf(),
            Err(e) => r matches Err(x) && x@ == e,
        },
        r is Ok ==> pmeasure(old(comp).src@, pstate(*final(comp))) <= pmeasure(old(comp).src@, pstate(*old(comp))),
{
    proof {
        reveal(for_cond_spec);
    }
    if !matches!(comp.cur_tok, TokenType::Semicolon) {
        let (c, _) = match parse_expr(comp) {
            Ok(v) => v,
            Err(x) => return Err(x),
        };
        if let Err(x) = skip_semicolon(comp) {
            return Err(x);
        }
        Ok(Some(c))
    } else {
        match next_token(comp) {
            Ok(()) => Ok(None),
            Err(e) => Err(e),
        }
    }
}

fn for_post(comp: &mut Compiler) -> (r: Result<Option<Stmt>, ParseError>)
    requires
        old(comp).wf(),
    ensures
        same_source(*final(comp), *old(comp)),
        match for_post_spec(old(comp).src@, pstate(*old(comp))) {
            Ok((v, s)) => r matches Ok(x) && (match x { Some(p) => v == Some(p@), None => v is None })
                && pstate(*final(comp)) == s && final(comp).wf(),
            Err(e) => r matches Err(x) && x@ == e,
        },
        r is Ok ==> pmeasure(old(comp).src@, pstate(*final(comp))) <= pmeasure(old(comp).src@, pstate(*old(comp))),
{
    proof {
        reveal(for_post_spec);
    }
    if !matches!(comp.cur_tok, TokenType::CloseParen) && !matches!(comp.cur_tok, TokenType::OpenCurly) {
        let line = comp.line;
        let (expr, _) = match parse_expr(comp) {
            Ok(v) => v,
            Err(x) => return Err(x),
        };
        if let TokenType::Equals = comp.cur_tok {
            if let Expr::Variable(name) = expr {
                if let Err(x) = next_token(comp) {
                    return Err(x);
                }
                let (val, _) = match parse_expr(comp) {
                    Ok(v) => v,
                    Err(x) => return Err(x),
                };
                Ok(Some(Stmt::Assign { name, value: Box::new(val), line }))
            } else {
                Ok(None)
            }
        } else {
            Ok(Some(Stmt::Expression(expr, line)))
        }
    } else {
        Ok(None)
    }
}

#[verifier::rlimit(80)]
#[verifier::spinoff_prover]
fn parse_for_stmt(comp: &mut Compiler) -> (r: Result<Stmt, ParseError>)
    requires
        old(comp).wf(),
        token_weight(old(comp).cur_tok@) == 1,
    ensures
        same_source(*final(comp), *old(comp)),
        match parse_for_spec(old(comp).src@, pstate(*old(comp))) {
            Ok((v, s)) => r matches Ok(x) && x@ == v && pstate(*final(comp)) == s && final(comp).wf(),
            Err(e) => r matches Err(x) && x@ == e,
        },
        r is Ok ==> pmeasure(old(comp).src@, pstate(*final(comp))) + token_weight(old(comp).cur_tok@)
            <= pmeasure(old(comp).src@, pstate(*old(comp))),
    decreases pmeasure(old(comp).src@, pstate(*old(comp))), 1nat,
{
    let ghost st = pstate(*comp);
    if let Err(e) = next_token(comp) {
        return Err(e);
    }
    let has_parens = matches!(comp.cur_tok, TokenType::OpenParen);
    if has_parens {
        if let Err(e) = next_token(comp) {
            return Err(e);
        }
    }
    let init = match for_init(comp) {
        Ok(v) => v,
        Err(e) => return Err(e),
    };
    let condition = match for_cond(comp) {
        Ok(v) => v,
        Err(e) => return Err(e),
    };
    let post = match for_post(comp) {
        Ok(v) => v,
        Err(e) => return Err(e),
    };
    if has_parens && matches!(comp.cur_tok, TokenType::CloseParen) {
        if let Err(e) = next_token(comp) {
            return Err(e);
        }
    }
    let body = match parse_block_as_vec(comp) {
        Ok(v) => v,
        Err(e) => return Err(e),
    };
    Ok(make_for(init, condition, post, body))
}


fn parse_while_stmt(comp: &mut Compiler) -> (r: Result<Stmt, ParseError>)
    requires
        old(comp).wf(),
        token_weight(old(comp).cur_tok@) == 1,
    ensures
        same_source(*final(comp), *old(comp)),
        match parse_while_spec(old(comp).src@, pstate(*old(comp))) {
            Ok((v, s)) => r matches Ok(x) && x@ == v && pstate(*final(comp)) == s && final(comp).wf(),
            Err(e) => r matches Err(x) && x@ == e,
        },
        r is Ok ==> progressed(old(comp).src@, pstate(*final(comp)), pstate(*old(comp))),
    decreases pmeasure(old(comp).src@, pstate(*old(comp))), 1nat,
{
    if let Err(e) = next_token(comp) {
        return Err(e);
    }
    let has_parens = matches!(comp.cur_tok, TokenType::OpenParen);
    if has_parens {
        if let Err(e) = next_token(comp) {
            return Err(e);
        }
    }
    let (condition_expr, _) = match parse_expr(comp) {
        Ok(v) => v,
        Err(e) => return Err(e),
    };
    if has_parens {
        if let TokenType::CloseParen = comp.cur_tok {
            if let Err(e) = next_token(comp) {
                return Err(e);
            }
        } else {
            return Err(ParseError::ExpectedCloseParenAfterWhile { line: comp.line });
        }
    }
    let body = match parse_block_as_vec(comp) {
        Ok(v) => v,
        Err(e) => return Err(e),
    };
    Ok(make_for(None, Some(condition_expr), None, body))
}

/// Reads the `else if` and `else` branches that follow an `if`, appending
/// the `else if` branches to `else_ifs`.
#[verifier::rlimit(40)]
fn parse_else_branches(comp: &mut Compiler, else_ifs: &mut Vec<(Expr, Vec<Stmt>)>) -> (r: Result<Option<Vec<Stmt>>, ParseError>)
    requires
        old(comp).wf(),
    ensures
        same_source(*final(comp), *old(comp)),
        match else_rest_spec(old(comp).src@, pstate(*old(comp)), else_ifs_view(old(else_ifs)@)) {
            Ok(((eis, eb), s)) => r matches Ok(x) && else_ifs_view(final(else_ifs)@) == eis
                && (match x { Some(b) => eb == Some(stmts_view(b@)), None => eb is None })
                && pstate(*final(comp)) == s && final(comp).wf(),
            Err(e) => r matches Err(x) && x@ == e,
        },
        r is Ok ==> pmeasure(old(comp).src@, pstate(*final(comp))) <= pmeasure(old(comp).src@, pstate(*old(comp))),
    decreases pmeasure(old(comp).src@, pstate(*old(comp))), 1nat,
{
    let ghost st0 = pstate(*comp);
    let ghost acc0 = else_ifs_view(else_ifs@);
    while matches!(comp.cur_tok, TokenType::Else)
        invariant
            comp.wf(),
            same_source(*comp, *old(comp)),
            st0 == pstate(*old(comp)),
            acc0 == else_ifs_view(old(else_ifs)@),
            else_rest_spec(comp.src@, st0, acc0) == else_rest_spec(comp.src@, pstate(*comp), else_ifs_view(else_ifs@)),
            pmeasure(comp.src@, pstate(*comp)) <= pmeasure(comp.src@, st0),
        decreases pmeasure(comp.src@, pstate(*comp)),
    {
        let ghost st = pstate(*comp);
        if let Err(e) = next_token(comp) {
            return Err(e);
        }
        if let TokenType::If = comp.cur_tok {
            if let Err(e) = next_token(comp) {
                return Err(e);
            }
            if let Err(e) = next_token(comp) {
                return Err(e);
            }
            let (ei_cond, _) = match parse_expr(comp) {
                Ok(v) => v,
                Err(e) => return Err(e),
            };
            if let Err(e) = next_token(comp) {
                return Err(e);
            }
            let ei_body = match parse_block_as_vec(comp) {
                Ok(v) => v,
                Err(e) => return Err(e),
            };
            let ghost before = else_ifs_view(else_ifs@);
            else_ifs.push((ei_cond, ei_body));
            proof {
                assert(else_ifs_view(else_ifs@) =~= before.push((ei_cond@, stmts_view(ei_body@))));
            }
        } else {
            return match parse_block_as_vec(comp) {
                Ok(b) => Ok(Some(b)),
                Err(e) => Err(e),
            };
        }
    }
    Ok(None)
}

fn parse_if_stmt(comp: &mut Compiler) -> (r: Result<Stmt, ParseError>)
    requires
        old(comp).wf(),
        token_weight(old(comp).cur_tok@) == 1,
    ensures
        same_source(*final(comp), *old(comp)),
        match parse_if_spec(old(comp).src@, pstate(*old(comp))) {
            Ok((v, s)) => r matches Ok(x) && x@ == v && pstate(*final(comp)) == s && final(comp).wf(),
            Err(e) => r matches Err(x) && x@ == e,
        },
        r is Ok ==> progressed(old(comp).src@, pstate(*final(comp)), pstate(*old(comp))),
    decreases pmeasure(old(comp).src@, pstate(*old(comp))), 1nat,
{
    let line = comp.line;
    if let Err(e) = next_token(comp) {
        return Err(e);
    }
    if !matches!(comp.cur_tok, TokenType::OpenParen) {
        return Err(ParseError::Malformed { line: comp.line });
    }
    if let Err(e) = next_token(comp) {
        return Err(e);
    }
    let (condition, _) = match parse_expr(comp) {
        Ok(v) => v,
        Err(e) => return Err(e),
    };
    if !matches!(comp.cur_tok, TokenType::CloseParen) {
        return Err(ParseError::Malformed { line: comp.line });
    }
    if let Err(e) = next_token(comp) {
        return Err(e);
    }
    let then_block = match parse_block_as_vec(comp) {
        Ok(v) => v,
        Err(e) => return Err(e),
    };
    let mut else_ifs: Vec<(Expr, Vec<Stmt>)> = Vec::new();
    assert(else_ifs_view(else_ifs@) =~= Seq::<(SpecExpr, Seq<SpecStmt>)>::empty());
    let else_block = match parse_else_branches(comp, &mut else_ifs) {
        Ok(v) => v,
        Err(e) => return Err(e),
    };
    Ok(make_if(condition, then_block, else_ifs, else_block, line))
}

/// A statement that starts with an identifier: an assignment or an
/// expression statement.
#[verifier::rlimit(80)]
#[verifier::spinoff_prover]
fn parse_ident_stmt(comp: &mut Compiler) -> (r: Result<Stmt, ParseError>)
    requires
        old(comp).wf(),
    ensures
        same_source(*final(comp), *old(comp)),
        match ident_stmt_spec(old(comp).src@, pstate(*old(comp))) {
            Ok((v, s)) => r matches Ok(x) && x@ == v && pstate(*final(comp)) == s && final(comp).wf(),
            Err(e) => r matches Err(x) && x@ == e,
        },
        r is Ok ==> pmeasure(old(comp).src@, pstate(*final(comp))) + token_weight(old(comp).cur_tok@)
            <= pmeasure(old(comp).src@, pstate(*old(comp))),
{
    proof {
        reveal(ident_stmt_spec);
    }
    let line = comp.line;
    let (expr, _) = match parse_expr(comp) {
        Ok(v) => v,
        Err(e) => return Err(e),
    };
    if let TokenType::Equals = comp.cur_tok {
        if let Expr::Variable(name) = expr {
            if let Err(e) = next_token(comp) {
                return Err(e);
            }
            let (value_expr, _) = match parse_expr(comp) {
                Ok(v) => v,
                Err(e) => return Err(e),
            };
            let is_mutable = match comp.lookup_variable(name.as_str()) {
                Some(info) => info.is_mutable,
                None => return Err(ParseError::UndefinedVariable { line: comp.line, name }),
            };
            if !is_mutable {
                return Err(ParseError::NotMutable { line: comp.line, name });
            }
            if let Err(e) = skip_semicolon(comp) {
                return Err(e);
            }
            Ok(Stmt::Assign { name, value: Box::new(value_expr), line })
        } else {
            Err(ParseError::InvalidAssignmentTarget { line: comp.line })
        }
    } else {
        if let Err(e) = skip_semicolon(comp) {
            return Err(e);
        }
        Ok(Stmt::Expression(expr, line))
    }
}

/// A statement.
#[verifier::rlimit(80)]
#[verifier::spinoff_prover]
fn parse_stmt(comp: &mut Compiler) -> (r: Result<Stmt, ParseError>)
    requires
        old(comp).wf(),
    ensures
        same_source(*final(comp), *old(comp)),
        match parse_stmt_spec(old(comp).src@, pstate(*old(comp))) {
            Ok((v, s)) => r matches Ok(x) && x@ == v && pstate(*final(comp)) == s && final(comp).wf(),
            Err(e) => r matches Err(x) && x@ == e,
        },
        r is Ok ==> progressed(old(comp).src@, pstate(*final(comp)), pstate(*old(comp))),
    decreases pmeasure(old(comp).src@, pstate(*old(comp))), 2nat,
{
    match comp.cur_tok {
        TokenType::Let => parse_let_stmt(comp),
        TokenType::Return => parse_return_stmt(comp),
        TokenType::If => parse_if_stmt(comp),
        TokenType::For => parse_for_stmt(comp),
        TokenType::While => parse_while_stmt(comp),
        TokenType::Ident(_) => parse_ident_stmt(comp),
        _ => Err(ParseError::UnknownStatement { line: comp.line, token: comp.cur_tok.duplicate() }),
    }
}

/// Reads statements up to a closing brace or the end of input, appending
/// them to `items`.
#[verifier::rlimit(40)]
fn parse_block_items(comp: &mut Compiler, items: &mut Vec<Stmt>) -> (r: Result<(), ParseError>)
    requires
        old(comp).wf(),
    ensures
        same_source(*final(comp), *old(comp)),
        match block_items_spec(old(comp).src@, pstate(*old(comp)), stmts_view(old(items)@)) {
            Ok((v, s)) => r is Ok && stmts_view(final(items)@) == v && pstate(*final(comp)) == s && final(comp).wf(),
            Err(e) => r matches Err(x) && x@ == e,
        },
        r is Ok ==> pmeasure(old(comp).src@, pstate(*final(comp))) <= pmeasure(old(comp).src@, pstate(*old(comp))),
    decreases pmeasure(old(comp).src@, pstate(*old(comp))), 3nat,
{
    let ghost st0 = pstate(*comp);
    let ghost acc0 = stmts_view(items@);
    while !matches!(comp.cur_tok, TokenType::CloseCurly) && !matches!(comp.cur_tok, TokenType::Eof)
        invariant
            comp.wf(),
            same_source(*comp, *old(comp)),
            st0 == pstate(*old(comp)),
            acc0 == stmts_view(old(items)@),
            block_items_spec(comp.src@, st0, acc0) == block_items_spec(comp.src@, pstate(*comp), stmts_view(items@)),
            pmeasure(comp.src@, pstate(*comp)) <= pmeasure(comp.src@, st0),
        decreases pmeasure(comp.src@, pstate(*comp)),
    {
        let stmt = match parse_stmt(comp) {
            Ok(v) => v,
            Err(e) => return Err(e),
        };
        let ghost before = stmts_view(items@);
        items.push(stmt);
        proof {
            assert(stmts_view(items@) =~= before.push(stmt@));
        }
    }
    Ok(())
}

/// `block := '{' stmt* '}'`, in a scope of its own.
#[verifier::rlimit(80)]
#[verifier::spinoff_prover]
fn parse_block_as_vec(comp: &mut Compiler) -> (r: Result<Vec<Stmt>, ParseError>)
    requires
        old(comp).wf(),
    ensures
        same_source(*final(comp), *old(comp)),
        match parse_block_spec(old(comp).src@, pstate(*old(comp))) {
            Ok((v, s)) => r matches Ok(x) && stmts_view(x@) == v && pstate(*final(comp)) == s && final(comp).wf(),
            Err(e) => r matches Err(x) && x@ == e,
        },
        r is Ok ==> progressed(old(comp).src@, pstate(*final(comp)), pstate(*old(comp))),
    decreases pmeasure(old(comp).src@, pstate(*old(comp))), 4nat,
{
    if !matches!(comp.cur_tok, TokenType::OpenCurly) {
        return Err(ParseError::ExpectedOpenCurly { line: comp.line });
    }
    if let Err(e) = next_token(comp) {
        return Err(e);
    }
    comp.enter_scope();
    let mut body: Vec<Stmt> = Vec::new();
    assert(stmts_view(body@) =~= Seq::<SpecStmt>::empty());
    if let Err(e) = parse_block_items(comp, &mut body) {
        return Err(e);
    }
    if !matches!(comp.cur_tok, TokenType::CloseCurly) {
        return Err(ParseError::ExpectedCloseCurly { line: comp.line });
    }
    if let Err(e) = next_token(comp) {
        return Err(e);
    }
    comp.exit_scope();
    Ok(body)
}


// ------------------------------------------------------------ declarations

/// Reads the parameters of a function up to its closing parenthesis,
/// appending them to `params` and binding each in the innermost scope.
#[verifier::rlimit(100)]
#[verifier::spinoff_prover]
fn parse_params(comp: &mut Compiler, params: &mut Vec<Param>) -> (r: Result<(), ParseError>)
    requires
        old(comp).wf(),
    ensures
        same_source(*final(comp), *old(comp)),
        match parse_params_spec(old(comp).src@, pstate(*old(comp)), params_view(old(params)@)) {
            Ok((v, s)) => r is Ok && params_view(final(params)@) == v && pstate(*final(comp)) == s && final(comp).wf(),
            Err(e) => r matches Err(x) && x@ == e,
        },
        r is Ok ==> pmeasure(old(comp).src@, pstate(*final(comp))) <= pmeasure(old(comp).src@, pstate(*old(comp))),
{
    let ghost st0 = pstate(*comp);
    let ghost acc0 = params_view(params@);
    while !matches!(comp.cur_tok, TokenType::CloseParen)
        invariant
            comp.wf(),
            same_source(*comp, *old(comp)),
            st0 == pstate(*old(comp)),
            acc0 == params_view(old(params)@),
            parse_params_spec(comp.src@, st0, acc0) == parse_params_spec(comp.src@, pstate(*comp), params_view(params@)),
            pmeasure(comp.src@, pstate(*comp)) <= pmeasure(comp.src@, st0),
        decreases pmeasure(comp.src@, pstate(*comp)),
    {
        let p_name = match &comp.cur_tok {
            TokenType::Ident(name) => name.clone(),
            _ => return Err(ParseError::Malformed { line: comp.line }),
        };
        if let Err(e) = next_token(comp) {
            return Err(e);
        }
        let p_ty = match &comp.cur_tok {
            TokenType::Ident(ty_str) => string_to_celeste_type(ty_str.as_str()),
            _ => return Err(ParseError::Malformed { line: comp.line }),
        };
        if let Err(e) = next_token(comp) {
            return Err(e);
        }
        let ghost before = params_view(params@);
        params.push(Param { name: p_name.clone(), ty: p_ty.duplicate() });
        proof {
            assert(params_view(params@) =~= before.push((p_name@, p_ty)));
        }
        comp.add_variable(
            p_name,
            VariableInfo { stack_slot: None, var_type: p_ty, is_mutable: false, cranelift_var: None },
        );
        if let Err(e) = skip_comma(comp) {
            return Err(e);
        }
    }
    Ok(())
}

/// A function body: `'{' stmt* '}'`, in the scope that holds the parameters.
fn parse_block_internal(comp: &mut Compiler) -> (r: Result<Vec<Stmt>, ParseError>)
    requires
        old(comp).wf(),
    ensures
        same_source(*final(comp), *old(comp)),
        match parse_block_internal_spec(old(comp).src@, pstate(*old(comp))) {
            Ok((v, s)) => r matches Ok(x) && stmts_view(x@) == v && pstate(*final(comp)) == s && final(comp).wf(),
            Err(e) => r matches Err(x) && x@ == e,
        },
        r is Ok ==> progressed(old(comp).src@, pstate(*final(comp)), pstate(*old(comp))),
{
    if !matches!(comp.cur_tok, TokenType::OpenCurly) {
        return Err(ParseError::ExpectedOpenCurly { line: comp.line });
    }
    if let Err(e) = next_token(comp) {
        return Err(e);
    }
    let mut stmts: Vec<Stmt> = Vec::new();
    assert(stmts_view(stmts@) =~= Seq::<SpecStmt>::empty());
    if let Err(e) = parse_block_items(comp, &mut stmts) {
        return Err(e);
    }
    if !matches!(comp.cur_tok, TokenType::CloseCurly) {
        return Err(ParseError::ExpectedCloseCurly { line: comp.line });
    }
    if let Err(e) = next_token(comp) {
        return Err(e);
    }
    Ok(stmts)
}

fn make_function(name: String, params: Vec<Param>, return_type: String, body: Vec<Stmt>) -> (r: Stmt)
    ensures
        r@ == (SpecStmt::Function {
            name: name@,
            params: params_view(params@),
            return_type: return_type@,
            body: stmts_view(body@),
        }),
{
    let ghost b = body@;
    let ghost p = params@;
    let r = Stmt::Function { name, params, return_type, body };
    proof {
        assert(r@->Function_body =~= stmts_view(b));
        assert(r@->Function_params =~= params_view(p));
    }
    r
}

#[verifier::rlimit(80)]
#[verifier::spinoff_prover]
fn parse_fn_decl(comp: &mut Compiler) -> (r: Result<Stmt, ParseError>)
    requires
        old(comp).wf(),
    ensures
        same_source(*final(comp), *old(comp)),
        match parse_fn_decl_spec(old(comp).src@, pstate(*old(comp))) {
            Ok((v, s)) => r matches Ok(x) && x@ == v && pstate(*final(comp)) == s && final(comp).wf(),
            Err(e) => r matches Err(x) && x@ == e,
        },
        r is Ok ==> progressed(old(comp).src@, pstate(*final(comp)), pstate(*old(comp))),
{
    proof {
        reveal(parse_fn_decl_spec);
    }
    if let Err(e) = next_token(comp) {
        return Err(e);
    }
    let fn_name = match &comp.cur_tok {
        TokenType::Ident(name) => name.clone(),
        _ => return Err(ParseError::ExpectedFunctionName { line: comp.line }),
    };
    if let Err(e) = next_token(comp) {
        return Err(e);
    }
    if !matches!(comp.cur_tok, TokenType::OpenParen) {
        return Err(ParseError::ExpectedOpenParen { line: comp.line });
    }
    if let Err(e) = next_token(comp) {
        return Err(e);
    }
    comp.enter_scope();
    let mut params: Vec<Param> = Vec::new();
    assert(params_view(params@) =~= Seq::<(Seq<char>, CelesteType)>::empty());
    if let Err(e) = parse_params(comp, &mut params) {
        return Err(e);
    }
    if let Err(e) = next_token(comp) {
        return Err(e);
    }
    let fn_return_type_str = match &comp.cur_tok {
        TokenType::Ident(t) => {
            let t = t.clone();
            if let Err(e) = next_token(comp) {
                return Err(e);
            }
            t
        }
        _ => {
            let v = "void";
            proof {
                reveal_strlit("void");
                assert(v@ =~= void_name());
            }
            v.to_owned()
        }
    };
    let return_type = string_to_celeste_type(fn_return_type_str.as_str());
    comp.globals.insert(fn_name.clone(), return_type);
    let body = match parse_block_internal(comp) {
        Ok(v) => v,
        Err(e) => return Err(e),
    };
    let void_str = "void";
    proof {
        reveal_strlit("void");
        assert(void_str@ =~= void_name());
    }
    if !str_equal(fn_return_type_str.as_str(), void_str) {
        if body.len() == 0 {
            return Err(ParseError::EmptyBodyNeedsReturn { line: comp.line, name: fn_name });
        }
        if !matches!(body[body.len() - 1], Stmt::Return { .. }) {
            return Err(ParseError::MissingReturn { line: comp.line, name: fn_name });
        }
    }
    comp.exit_scope();
    Ok(make_function(fn_name, params, fn_return_type_str, body))
}

/// Reads the parameter types of an external function up to its closing
/// parenthesis, appending them to `arg_types`; tells whether `...` marked
/// it variadic.
#[verifier::rlimit(60)]
fn extern_params(comp: &mut Compiler, arg_types: &mut Vec<CelesteType>) -> (r: Result<bool, ParseError>)
    requires
        old(comp).wf(),
    ensures
        same_source(*final(comp), *old(comp)),
        match extern_params_spec(old(comp).src@, pstate(*old(comp)), old(arg_types)@) {
            Ok(((v, variadic), s)) => r == Ok::<bool, ParseError>(variadic) && final(arg_types)@ == v
                && pstate(*final(comp)) == s && final(comp).wf(),
            Err(e) => r matches Err(x) && x@ == e,
        },
        r is Ok ==> pmeasure(old(comp).src@, pstate(*final(comp))) <= pmeasure(old(comp).src@, pstate(*old(comp))),
{
    let ghost st0 = pstate(*comp);
    let ghost acc0 = arg_types@;
    while !matches!(comp.cur_tok, TokenType::CloseParen)
        invariant
            comp.wf(),
            same_source(*comp, *old(comp)),
            st0 == pstate(*old(comp)),
            acc0 == old(arg_types)@,
            extern_params_spec(comp.src@, st0, acc0) == extern_params_spec(comp.src@, pstate(*comp), arg_types@),
            pmeasure(comp.src@, pstate(*comp)) <= pmeasure(comp.src@, st0),
        decreases pmeasure(comp.src@, pstate(*comp)),
    {
        if let TokenType::Ellipsis = comp.cur_tok {
            return match next_token(comp) {
                Ok(()) => Ok(true),
                Err(e) => Err(e),
            };
        }
        if !matches!(comp.cur_tok, TokenType::Ident(_)) && !matches!(comp.cur_tok, TokenType::Comma) {
            return Err(ParseError::Stalled { line: comp.line });
        }
        proof {
            lemma_advance(comp.src@, pstate(*comp));
        }
        let ty = match &comp.cur_tok {
            TokenType::Ident(ty_str) => Some(string_to_celeste_type(ty_str.as_str())),
            _ => None,
        };
        if let Some(t) = ty {
            arg_types.push(t);
            if let Err(e) = next_token(comp) {
                return Err(e);
            }
        }
        proof {
            lemma_advance(comp.src@, pstate(*comp));
        }
        if let Err(e) = skip_comma(comp) {
            return Err(e);
        }
    }
    Ok(false)
}

#[verifier::rlimit(80)]
#[verifier::spinoff_prover]
fn parse_extrn_decl(comp: &mut Compiler) -> (r: Result<Stmt, ParseError>)
    requires
        old(comp).wf(),
    ensures
        same_source(*final(comp), *old(comp)),
        match parse_extrn_spec(old(comp).src@, pstate(*old(comp))) {
            Ok((v, s)) => r matches Ok(x) && x@ == v && pstate(*final(comp)) == s && final(comp).wf(),
            Err(e) => r matches Err(x) && x@ == e,
        },
        r is Ok ==> progressed(old(comp).src@, pstate(*final(comp)), pstate(*old(comp))),
{
    proof {
        reveal(parse_extrn_spec);
    }
    if let Err(e) = next_token(comp) {
        return Err(e);
    }
    if !matches!(comp.cur_tok, TokenType::Fn) {
        return Err(ParseError::Malformed { line: comp.line });
    }
    if let Err(e) = next_token(comp) {
        return Err(e);
    }
    let fn_name = match &comp.cur_tok {
        TokenType::Ident(name) => name.clone(),
        _ => return Err(ParseError::Malformed { line: comp.line }),
    };
    if let Err(e) = next_token(comp) {
        return Err(e);
    }
    if let Err(e) = next_token(comp) {
        return Err(e);
    }
    let mut arg_types: Vec<CelesteType> = Vec::new();
    let is_variadic = match extern_params(comp, &mut arg_types) {
        Ok(v) => v,
        Err(e) => return Err(e),
    };
    if let Err(e) = next_token(comp) {
        return Err(e);
    }
    let return_type = match &comp.cur_tok {
        TokenType::Ident(ty_str) => {
            let t = string_to_celeste_type(ty_str.as_str());
            if let Err(e) = next_token(comp) {
                return Err(e);
            }
            t
        }
        _ => CelesteType::Void,
    };
    if let Err(e) = skip_semicolon(comp) {
        return Err(e);
    }
    comp.globals.insert(fn_name.clone(), return_type.duplicate());
    Ok(Stmt::Extern { name: fn_name, arg_types, return_type, is_variadic })
}

fn parse_top_level(comp: &mut Compiler) -> (r: Result<Stmt, ParseError>)
    requires
        old(comp).wf(),
    ensures
        same_source(*final(comp), *old(comp)),
        match parse_top_level_spec(old(comp).src@, pstate(*old(comp))) {
            Ok((v, s)) => r matches Ok(x) && x@ == v && pstate(*final(comp)) == s && final(comp).wf(),
            Err(e) => r matches Err(x) && x@ == e,
        },
        r is Ok ==> progressed(old(comp).src@, pstate(*final(comp)), pstate(*old(comp))),
{
    match comp.cur_tok {
        TokenType::Fn => parse_fn_decl(comp),
        TokenType::Extrn => parse_extrn_decl(comp),
        _ => Err(ParseError::UnexpectedTopLevel { line: comp.line, token: comp.cur_tok.duplicate() }),
    }
}

/// Reads an include directive, whose keyword is the current token: the path
/// it names.
pub fn parse_include(comp: &mut Compiler) -> (r: Result<String, ParseError>)
    requires
        old(comp).wf(),
    ensures
        same_source(*final(comp), *old(comp)),
        match parse_include_spec(old(comp).src@, pstate(*old(comp))) {
            Ok((p, s)) => r matches Ok(x) && x@ == p && pstate(*final(comp)) == s && final(comp).wf(),
            Err(e) => r matches Err(x) && x@ == e,
        },
        r is Ok ==> progressed(old(comp).src@, pstate(*final(comp)), pstate(*old(comp))),
{
    if let Err(e) = next_token(comp) {
        return Err(e);
    }
    let path = match &comp.cur_tok {
        TokenType::StringLiteral(s) => s.clone(),
        _ => return Err(ParseError::ExpectedIncludePath { line: comp.line }),
    };
    if let Err(e) = next_token(comp) {
        return Err(e);
    }
    if let Err(e) = skip_semicolon(comp) {
        return Err(e);
    }
    Ok(path)
}

/// What one step of reading a program gives.
#[derive(Debug)]
pub enum ParseStep {
    /// The end of input.
    Done,
    /// A top-level declaration.
    Item(Stmt),
    /// An include directive: the statements of the named file belong here.
    Include(String),
}

impl View for ParseStep {
    type V = StepSpec;

    open spec fn view(&self) -> StepSpec {
        match self {
            ParseStep::Done => StepSpec::Done,
            ParseStep::Item(s) => StepSpec::Item(s@),
            ParseStep::Include(p) => StepSpec::Include(p@),
        }
    }
}

/// Reads the first token of the source.
pub fn parse_begin(comp: &mut Compiler) -> (r: Result<(), ParseError>)
    requires
        old(comp).wf(),
    ensures
        same_source(*final(comp), *old(comp)),
        match advance(old(comp).src@, pstate(*old(comp))) {
            Ok(s) => r is Ok && pstate(*final(comp)) == s && final(comp).wf(),
            Err(e) => r matches Err(x) && x@ == e,
        },
{
    next_token(comp)
}

/// Reads the next part of a program: a top-level declaration, an include
/// directive, or the end of input.
pub fn parse_step(comp: &mut Compiler) -> (r: Result<ParseStep, ParseError>)
    requires
        old(comp).wf(),
    ensures
        same_source(*final(comp), *old(comp)),
        match parse_step_spec(old(comp).src@, pstate(*old(comp))) {
            Ok((v, s)) => r matches Ok(x) && x@ == v && pstate(*final(comp)) == s && final(comp).wf(),
            Err(e) => r matches Err(x) && x@ == e,
        },
        r matches Ok(x) && !(x is Done) ==> progressed(old(comp).src@, pstate(*final(comp)), pstate(*old(comp))),
{
    if let TokenType::Eof = comp.cur_tok {
        return Ok(ParseStep::Done);
    }
    if let TokenType::Include = comp.cur_tok {
        return match parse_include(comp) {
            Ok(p) => Ok(ParseStep::Include(p)),
            Err(e) => Err(e),
        };
    }
    match parse_top_level(comp) {
        Ok(s) => Ok(ParseStep::Item(s)),
        Err(e) => Err(e),
    }
}

/// Splices an included file into the program being read: its statements
/// are appended to `stmts`, in order, and the global return types it
/// recorded are added to those of `comp`, replacing any of the same name.
pub fn splice_include(comp: &mut Compiler, stmts: &mut Vec<Stmt>, included: &Compiler, program: Program)
    ensures
        stmts_view(final(stmts)@) == stmts_view(old(stmts)@) + stmts_view(program.stmts@),
        final(comp).globals@ == old(comp).globals@.union_prefer_right(included.globals@),
        same_source(*final(comp), *old(comp)),
        final(comp).scopes == old(comp).scopes,
        final(comp).index == old(comp).index,
        final(comp).line == old(comp).line,
        final(comp).cur_tok == old(comp).cur_tok,
{
    comp.merge_globals(&included.globals);
    let ghost a = stmts@;
    let mut rest = program.stmts;
    let ghost b = rest@;
    stmts.append(&mut rest);
    proof {
        assert(stmts_view(stmts@) =~= stmts_view(a) + stmts_view(b));
    }
}

} // verus!
