use vstd::prelude::*;

use vstd::string::StringExecFns;

use crate::lexer::{scan, tokens_from, Lexer};
use crate::token::{prec_of, token_name, Expr, Node, OperPrec, Tok, Token};

verus! {

/// Why a parse failed, with a description of the place.
#[derive(Debug)]
pub enum ParseError {
    UnexpectedToken(String),
    UnableToParse(String),
    UnexpectedEndOfInput,
    InvalidOperator(String),
}

/// The kinds of [`ParseError`], without their descriptions; an invalid
/// operator keeps the token that stood in its place.
pub enum ErrorKind {
    UnexpectedToken,
    UnableToParse,
    UnexpectedEndOfInput,
    InvalidOperator(Tok),
}

impl ParseError {
    /// The description that the error carries; empty for the end of input.
    pub open spec fn message(&self) -> Seq<char> {
        match self {
            ParseError::UnexpectedToken(m) => m@,
            ParseError::UnableToParse(m) => m@,
            ParseError::UnexpectedEndOfInput => Seq::empty(),
            ParseError::InvalidOperator(m) => m@,
        }
    }

    /// The error is of kind `f`, with the description of that kind.
    pub open spec fn signals(&self, f: ErrorKind) -> bool {
        &&& match (self, f) {
            (ParseError::UnexpectedToken(_), ErrorKind::UnexpectedToken) => true,
            (ParseError::UnableToParse(_), ErrorKind::UnableToParse) => true,
            (ParseError::UnexpectedEndOfInput, ErrorKind::UnexpectedEndOfInput) => true,
            (ParseError::InvalidOperator(_), ErrorKind::InvalidOperator(_)) => true,
            _ => false,
        }
        &&& self.message() == standard_message(f)
    }

    /// Both errors are of one variant and carry one description.
    pub open spec fn same_as(&self, other: &ParseError) -> bool {
        &&& match (self, other) {
            (ParseError::UnexpectedToken(_), ParseError::UnexpectedToken(_)) => true,
            (ParseError::UnableToParse(_), ParseError::UnableToParse(_)) => true,
            (ParseError::UnexpectedEndOfInput, ParseError::UnexpectedEndOfInput) => true,
            (ParseError::InvalidOperator(_), ParseError::InvalidOperator(_)) => true,
            _ => false,
        }
        &&& self.message() == other.message()
    }
}

/// The description that the parser gives to each kind of error; an invalid
/// operator is named after the token found in its place.
pub open spec fn standard_message(f: ErrorKind) -> Seq<char> {
    match f {
        ErrorKind::UnexpectedToken => "Unexpected token"@,
        ErrorKind::UnableToParse => "Unexpected token"@,
        ErrorKind::UnexpectedEndOfInput => Seq::empty(),
        ErrorKind::InvalidOperator(t) => "Please enter valid operator "@ + token_name(t),
    }
}

/// What a parsing step yields: a tree and the tokens left after it, the
/// first of them being the current one.
///
/// A successful step always leaves fewer tokens than it was given
/// ([`lemma_steps_shrink`]). The definitions below test that where they go
/// on from the tokens a step left, so that their termination is evident;
/// the lemma shows that the test never fails.
pub type Step = Result<(Expr, Seq<Tok>), ErrorKind>;

/// Moves past the current token `ts[0]`; there must be a token after it.
pub open spec fn advance(ts: Seq<Tok>) -> Result<Seq<Tok>, ErrorKind> {
    if ts.len() >= 2 {
        Ok(ts.drop_first())
    } else {
        Err(ErrorKind::UnexpectedEndOfInput)
    }
}

/// A primary expression at the front of `ts`: a negation, a number, or a
/// parenthesised expression, which an opening parenthesis right after it
/// multiplies.
pub open spec fn primary(ts: Seq<Tok>) -> Step
    decreases ts.len(), 0nat,
{
    if ts.len() == 0 {
        Err(ErrorKind::UnexpectedEndOfInput)
    } else {
        match ts[0] {
            Tok::Subtract => match advance(ts) {
                Err(f) => Err(f),
                Ok(r) => match expression(r, OperPrec::Negative) {
                    Err(f) => Err(f),
                    Ok((e, r2)) => Ok((Expr::Neg(Box::new(e)), r2)),
                },
            },
            Tok::Number(s) => match advance(ts) {
                Err(f) => Err(f),
                Ok(r) => Ok((Expr::Number(s), r)),
            },
            Tok::LParen => match advance(ts) {
                Err(f) => Err(f),
                Ok(r) => match expression(r, OperPrec::DefaultZero) {
                    Err(f) => Err(f),
                    Ok((e, r2)) => if r2.len() > 0 && r2[0] is RParen {
                        match advance(r2) {
                            Err(f) => Err(f),
                            Ok(r3) => if r3.len() > 0 && r3[0] is LParen && r3.len() < ts.len() {
                                match expression(r3, OperPrec::MulDiv) {
                                    Err(f) => Err(f),
                                    Ok((e2, r4)) => Ok(
                                        (Expr::Mul(Box::new(e), Box::new(e2)), r4),
                                    ),
                                }
                            } else {
                                Ok((e, r3))
                            },
                        }
                    } else {
                        Err(ErrorKind::UnexpectedToken)
                    },
                },
            },
            _ => Err(ErrorKind::UnableToParse),
        }
    }
}

/// An expression at the front of `ts` whose binary operators all bind more
/// tightly than `prec`: a primary, then as many operations as `climb` folds in.
pub open spec fn expression(ts: Seq<Tok>, prec: OperPrec) -> Step
    decreases ts.len(), 2nat,
{
    match primary(ts) {
        Err(f) => Err(f),
        Ok((left, r)) => if r.len() < ts.len() {
            climb(left, r, prec)
        } else {
            Ok((left, r))
        },
    }
}

/// Folds operations into `left` while the current token is a binary
/// operator that binds more tightly than `prec`.
pub open spec fn climb(left: Expr, ts: Seq<Tok>, prec: OperPrec) -> Step
    decreases ts.len(), 1nat,
{
    if ts.len() > 0 && prec.rank() < prec_of(ts[0]).rank() && !(ts[0] is Eof) {
        match binary(left, ts) {
            Err(f) => Err(f),
            Ok((combined, r)) => if r.len() < ts.len() {
                climb(combined, r, prec)
            } else {
                Ok((combined, r))
            },
        }
    } else {
        Ok((left, ts))
    }
}

/// The node that the binary operator `op` makes of two operands.
pub open spec fn apply(op: Tok, left: Expr, right: Expr) -> Expr {
    let l = Box::new(left);
    let r = Box::new(right);
    match op {
        Tok::Add => Expr::Add(l, r),
        Tok::Subtract => Expr::Sub(l, r),
        Tok::Multiply => Expr::Mul(l, r),
        Tok::Divide => Expr::Div(l, r),
        _ => Expr::Pow(l, r),
    }
}

/// One binary operation with `left` as its left operand: the operator is the
/// current token, and the right operand is an expression parsed at the
/// operator's own level.
pub open spec fn binary(left: Expr, ts: Seq<Tok>) -> Step
    decreases ts.len(), 0nat,
{
    if ts.len() == 0 {
        Err(ErrorKind::UnexpectedEndOfInput)
    } else if prec_of(ts[0]) == OperPrec::DefaultZero {
        Err(ErrorKind::InvalidOperator(ts[0]))
    } else {
        match advance(ts) {
            Err(f) => Err(f),
            Ok(r) => match expression(r, prec_of(ts[0])) {
                Err(f) => Err(f),
                Ok((right, r2)) => Ok((apply(ts[0], left, right), r2)),
            },
        }
    }
}

/// Every successful step leaves fewer tokens than it was given, and folding
/// operations in leaves no more; so the length tests in the definitions
/// above never fail.
pub proof fn lemma_steps_shrink(ts: Seq<Tok>, left: Expr, prec: OperPrec)
    ensures
        primary(ts) is Ok ==> primary(ts)->Ok_0.1.len() < ts.len(),
        expression(ts, prec) is Ok ==> expression(ts, prec)->Ok_0.1.len() < ts.len(),
        binary(left, ts) is Ok ==> binary(left, ts)->Ok_0.1.len() < ts.len(),
        climb(left, ts, prec) is Ok ==> climb(left, ts, prec)->Ok_0.1.len() <= ts.len(),
    decreases ts.len(), 1nat,
{
    if ts.len() >= 2 {
        let r = ts.drop_first();
        lemma_steps_shrink(r, left, OperPrec::Negative);
        lemma_steps_shrink(r, left, OperPrec::DefaultZero);
        lemma_steps_shrink(r, left, prec_of(ts[0]));
        if let Ok((e, r2)) = expression(r, OperPrec::DefaultZero) {
            if r2.len() >= 2 {
                let r3 = r2.drop_first();
                lemma_steps_shrink(r3, left, OperPrec::MulDiv);
            }
        }
    }
    lemma_primary_then_climb(ts, prec);
    lemma_climb_keeps_bound(left, ts, prec);
}

/// The tokens a successful expression leaves are fewer than those its
/// primary got.
proof fn lemma_primary_then_climb(ts: Seq<Tok>, prec: OperPrec)
    requires
        primary(ts) is Ok ==> primary(ts)->Ok_0.1.len() < ts.len(),
    ensures
        expression(ts, prec) is Ok ==> expression(ts, prec)->Ok_0.1.len() < ts.len(),
    decreases ts.len(), 0nat,
{
    if let Ok((l, r)) = primary(ts) {
        lemma_climb_keeps_bound(l, r, prec);
    }
}

/// Folding operations in never leaves more tokens than it was given.
proof fn lemma_climb_keeps_bound(left: Expr, ts: Seq<Tok>, prec: OperPrec)
    ensures
        climb(left, ts, prec) is Ok ==> climb(left, ts, prec)->Ok_0.1.len() <= ts.len(),
    decreases ts.len(), 0nat,
{
    if ts.len() > 0 && prec.rank() < prec_of(ts[0]).rank() && !(ts[0] is Eof) {
        if ts.len() >= 2 {
            lemma_steps_shrink(ts.drop_first(), left, prec_of(ts[0]));
        }
        if let Ok((c, r)) = binary(left, ts) {
            if r.len() < ts.len() {
                lemma_climb_keeps_bound(c, r, prec);
            }
        }
    }
}

/// The tree of a whole text, or why there is none. An empty text, or one
/// that opens with a character that starts no token, has no first token.
/// Tokens left after the expression are not looked at.
pub open spec fn parse_text(s: Seq<char>) -> Result<Expr, ErrorKind> {
    if s.len() == 0 || tokens_from(s, 0).len() == 0 {
        Err(ErrorKind::UnexpectedEndOfInput)
    } else {
        match expression(tokens_from(s, 0), OperPrec::DefaultZero) {
            Ok((e, _)) => Ok(e),
            Err(f) => Err(f),
        }
    }
}

/// Reads the tokens of one text and builds its tree.
pub struct Parser {
    lexer: Lexer,
    current_token: Token,
}

/// `r` is the exec counterpart of the step `s`, and on success the parser
/// has moved on to the tokens that `s` leaves.
pub open spec fn step_done(s: Step, r: Result<Node, ParseError>, after: &Parser, before: &Parser) -> bool {
    match s {
        Ok((e, rest)) => r is Ok && r->Ok_0.model() == e && after.rest() == rest
            && rest.len() < before.rest().len(),
        Err(f) => r is Err && r->Err_0.signals(f),
    }
}

impl Parser {
    /// The tokens still to be read, the current one first; nothing follows
    /// `Eof`.
    pub closed spec fn rest(&self) -> Seq<Tok> {
        if self.current_token@ is Eof {
            seq![Tok::Eof]
        } else {
            seq![self.current_token@] + tokens_from(self.lexer.input(), self.lexer.position())
        }
    }

    /// The text being parsed.
    pub closed spec fn input(&self) -> Seq<char> {
        self.lexer.input()
    }

    /// The lexer is well formed.
    pub closed spec fn wf(&self) -> bool {
        &&& self.lexer.wf()
        &&& 0 <= self.lexer.position()
    }

    /// A parser over `expr`, whose current token is the first one of the
    /// text. Fails where the text is empty or opens with a character that
    /// starts no token.
    pub fn new(expr: &str) -> (r: Result<Parser, ParseError>)
        ensures
            r is Ok <==> (expr@.len() > 0 && tokens_from(expr@, 0).len() > 0),
            r is Ok ==> r->Ok_0.wf() && r->Ok_0.input() == expr@ && r->Ok_0.rest()
                == tokens_from(expr@, 0),
            r is Err ==> r->Err_0.signals(ErrorKind::UnexpectedEndOfInput),
    {
        let mut lexer = Lexer::new(expr);
        if expr.is_empty() {
            return Err(ParseError::UnexpectedEndOfInput);
        }
        let cur_token = match lexer.next() {
            Some(token) => token,
            None => return Err(ParseError::UnexpectedEndOfInput),
        };
        Ok(Parser { lexer, current_token: cur_token })
    }

    /// Parses one expression from the current token on.
    pub fn parse(&mut self) -> (r: Result<Node, ParseError>)
        requires
            old(self).wf(),
        ensures
            match expression(old(self).rest(), OperPrec::DefaultZero) {
                Ok((e, _)) => r is Ok && r->Ok_0.model() == e,
                Err(f) => r is Err && r->Err_0.signals(f),
            },
    {
        self.generate_ast(OperPrec::DefaultZero)
    }

    /// Moves to the next token.
    fn get_next_token(&mut self) -> (r: Result<(), ParseError>)
        requires
            old(self).wf(),
            !(old(self).current_token@ is Eof),
        ensures
            final(self).wf(),
            final(self).input() == old(self).input(),
            match advance(old(self).rest()) {
                Ok(rest) => r is Ok && final(self).rest() == rest,
                Err(f) => r is Err && r->Err_0.signals(f),
            },
            r is Err ==> final(self).current_token == old(self).current_token,
    {
        let next_token = match self.lexer.next() {
            Some(token) => token,
            None => return Err(ParseError::UnexpectedEndOfInput),
        };
        self.current_token = next_token;
        proof {
            assert(self.rest() =~= old(self).rest().drop_first());
        }
        Ok(())
    }

    /// Moves past the current token, which must be a closing parenthesis.
    fn check_paren(&mut self) -> (r: Result<(), ParseError>)
        requires
            old(self).wf(),
        ensures
            final(self).wf(),
            final(self).input() == old(self).input(),
            old(self).rest()[0] is RParen ==> match advance(old(self).rest()) {
                Ok(rest) => r is Ok && final(self).rest() == rest,
                Err(f) => r is Err && r->Err_0.signals(f),
            },
            !(old(self).rest()[0] is RParen) ==> r is Err && r->Err_0.signals(
                ErrorKind::UnexpectedToken,
            ) && *final(self) == *old(self),
    {
        if matches!(self.current_token, Token::RParen) {
            self.get_next_token()
        } else {
            Err(ParseError::UnexpectedToken("Unexpected token".to_owned()))
        }
    }

    /// Parses a primary expression: a negation, a number, or a
    /// parenthesised expression, which an opening parenthesis right after it
    /// multiplies.
    fn parse_number(&mut self) -> (r: Result<Node, ParseError>)
        requires
            old(self).wf(),
        ensures
            final(self).wf(),
            final(self).input() == old(self).input(),
            step_done(primary(old(self).rest()), r, final(self), old(self)),
            !(old(self).rest()[0] is Subtract || old(self).rest()[0] is Number || old(
                self,
            ).rest()[0] is LParen) ==> *final(self) == *old(self),
        decreases old(self).rest().len(), 0nat,
    {
        if matches!(self.current_token, Token::Subtract) {
            match self.get_next_token() {
                Err(e) => return Err(e),
                Ok(()) => {},
            }
            let expr = match self.generate_ast(OperPrec::Negative) {
                Ok(n) => n,
                Err(e) => return Err(e),
            };
            Ok(Node::Neg(Box::new(expr)))
        } else if let Token::Number(lit) = &self.current_token {
            let value = lit.clone();
            match self.get_next_token() {
                Err(e) => return Err(e),
                Ok(()) => {},
            }
            Ok(Node::Number(value))
        } else if matches!(self.current_token, Token::LParen) {
            match self.get_next_token() {
                Err(e) => return Err(e),
                Ok(()) => {},
            }
            let expr = match self.generate_ast(OperPrec::DefaultZero) {
                Ok(n) => n,
                Err(e) => return Err(e),
            };
            match self.check_paren() {
                Err(e) => return Err(e),
                Ok(()) => {},
            }
            if matches!(self.current_token, Token::LParen) {
                let right = match self.generate_ast(OperPrec::MulDiv) {
                    Ok(n) => n,
                    Err(e) => return Err(e),
                };
                return Ok(Node::Mul(Box::new(expr), Box::new(right)));
            }
            Ok(expr)
        } else {
            Err(ParseError::UnableToParse("Unexpected token".to_owned()))
        }
    }

    /// Parses an expression whose binary operators all bind more tightly
    /// than `prec`.
    fn generate_ast(&mut self, prec: OperPrec) -> (r: Result<Node, ParseError>)
        requires
            old(self).wf(),
        ensures
            final(self).wf(),
            final(self).input() == old(self).input(),
            step_done(expression(old(self).rest(), prec), r, final(self), old(self)),
        decreases old(self).rest().len(), 1nat,
    {
        let ghost ts0 = self.rest();
        let mut left_expr = match self.parse_number() {
            Ok(n) => n,
            Err(e) => return Err(e),
        };
        loop
            invariant
                self.wf(),
                self.input() == old(self).input(),
                ts0 == old(self).rest(),
                self.rest().len() < ts0.len(),
                expression(ts0, prec) == climb(left_expr.model(), self.rest(), prec),
            ensures
                self.wf(),
                self.input() == old(self).input(),
                self.rest().len() < ts0.len(),
                expression(ts0, prec) == Step::Ok((left_expr.model(), self.rest())),
            decreases self.rest().len(),
        {
            let p = self.current_token.get_oper_prec();
            if !prec.is_weaker_than(&p) || matches!(self.current_token, Token::EOF) {
                break ;
            }
            left_expr = match self.convert_token_to_node(left_expr) {
                Ok(n) => n,
                Err(e) => return Err(e),
            };
        }
        Ok(left_expr)
    }

    /// Parses one binary operation whose left operand is `left_expr` and
    /// whose operator is the current token.
    fn convert_token_to_node(&mut self, left_expr: Node) -> (r: Result<Node, ParseError>)
        requires
            old(self).wf(),
        ensures
            final(self).wf(),
            final(self).input() == old(self).input(),
            step_done(binary(left_expr.model(), old(self).rest()), r, final(self), old(self)),
            prec_of(old(self).rest()[0]) == OperPrec::DefaultZero ==> *final(self) == *old(self),
        decreases old(self).rest().len(), 0nat,
    {
        let op = self.current_token.get_oper_prec();
        let ghost tok = self.current_token@;
        let is_add = matches!(self.current_token, Token::Add);
        let is_sub = matches!(self.current_token, Token::Subtract);
        let is_mul = matches!(self.current_token, Token::Multiply);
        let is_div = matches!(self.current_token, Token::Divide);
        if op.level() == 0 {
            let name = self.current_token.name();
            let message = "Please enter valid operator ".to_owned().concat(name.as_str());
            return Err(ParseError::InvalidOperator(message));
        }
        match self.get_next_token() {
            Err(e) => return Err(e),
            Ok(()) => {},
        }
        let right_expr = match self.generate_ast(op) {
            Ok(n) => n,
            Err(e) => return Err(e),
        };
        let l = Box::new(left_expr);
        let r = Box::new(right_expr);
        if is_add {
            Ok(Node::Add(l, r))
        } else if is_sub {
            Ok(Node::Sub(l, r))
        } else if is_mul {
            Ok(Node::Mul(l, r))
        } else if is_div {
            Ok(Node::Div(l, r))
        } else {
            Ok(Node::Pow(l, r))
        }
    }
}

/// `r` is what parsing the text `s` gives: the tree of [`parse_text`], or
/// the error, with its standard description, that it names.
pub open spec fn parses_to(s: Seq<char>, r: &Result<Node, ParseError>) -> bool {
    match parse_text(s) {
        Ok(e) => r is Ok && r->Ok_0.model() == e,
        Err(f) => r is Err && r->Err_0.signals(f),
    }
}

/// Parses a whole text, which holds no whitespace, into its tree.
pub fn parse(input: &str) -> (r: Result<Node, ParseError>)
    ensures
        parses_to(input@, &r),
{
    let mut parser = match Parser::new(input) {
        Ok(p) => p,
        Err(e) => return Err(e),
    };
    parser.parse()
}

/// Parsing keeps nothing from one call to the next: two parses of the same
/// text give the same tree, or fail with the same error.
pub proof fn lemma_parse_repeatable(
    s: Seq<char>,
    first: &Result<Node, ParseError>,
    second: &Result<Node, ParseError>,
)
    requires
        parses_to(s, first),
        parses_to(s, second),
    ensures
        first is Ok <==> second is Ok,
        first is Ok ==> first->Ok_0.model() == second->Ok_0.model(),
        first is Err ==> first->Err_0.same_as(&second->Err_0),
{
}

} // verus!
