use vstd::prelude::*;
use vstd::string::StringExecFns;

verus! {

/// A parsed expression. Every node owns its children; a number keeps the
/// text of its literal.
#[derive(Debug, PartialEq)]
pub enum Node {
    Add(Box<Node>, Box<Node>),
    Sub(Box<Node>, Box<Node>),
    Mul(Box<Node>, Box<Node>),
    Div(Box<Node>, Box<Node>),
    Pow(Box<Node>, Box<Node>),
    Neg(Box<Node>),
    Number(String),
}

/// The mathematical shape of a [`Node`]: the same tree, with each literal
/// seen as its sequence of characters.
pub enum Expr {
    Add(Box<Expr>, Box<Expr>),
    Sub(Box<Expr>, Box<Expr>),
    Mul(Box<Expr>, Box<Expr>),
    Div(Box<Expr>, Box<Expr>),
    Pow(Box<Expr>, Box<Expr>),
    Neg(Box<Expr>),
    Number(Seq<char>),
}

impl Node {
    /// The tree that this node stands for.
    pub open spec fn model(&self) -> Expr
        decreases self,
    {
        match self {
            Node::Add(l, r) => Expr::Add(Box::new(l.model()), Box::new(r.model())),
            Node::Sub(l, r) => Expr::Sub(Box::new(l.model()), Box::new(r.model())),
            Node::Mul(l, r) => Expr::Mul(Box::new(l.model()), Box::new(r.model())),
            Node::Div(l, r) => Expr::Div(Box::new(l.model()), Box::new(r.model())),
            Node::Pow(l, r) => Expr::Pow(Box::new(l.model()), Box::new(r.model())),
            Node::Neg(e) => Expr::Neg(Box::new(e.model())),
            Node::Number(s) => Expr::Number(s@),
        }
    }
}

impl Clone for Node {
    /// A copy of the whole tree.
    fn clone(&self) -> (r: Node)
        ensures
            r.model() == self.model(),
        decreases self,
    {
        match self {
            Node::Add(l, r) => Node::Add(Box::new((**l).clone()), Box::new((**r).clone())),
            Node::Sub(l, r) => Node::Sub(Box::new((**l).clone()), Box::new((**r).clone())),
            Node::Mul(l, r) => Node::Mul(Box::new((**l).clone()), Box::new((**r).clone())),
            Node::Div(l, r) => Node::Div(Box::new((**l).clone()), Box::new((**r).clone())),
            Node::Pow(l, r) => Node::Pow(Box::new((**l).clone()), Box::new((**r).clone())),
            Node::Neg(e) => Node::Neg(Box::new((**e).clone())),
            Node::Number(s) => Node::Number(s.clone()),
        }
    }
}

/// Binding strength of an operator, weakest first.
#[derive(Debug, Clone, Copy, PartialEq, Eq, Structural, PartialOrd)]
pub enum OperPrec {
    DefaultZero,
    AddSub,
    MulDiv,
    Pow,
    Negative,
}

impl OperPrec {
    /// The position of the level in the order, weakest first.
    pub open spec fn rank(self) -> nat {
        match self {
            OperPrec::DefaultZero => 0,
            OperPrec::AddSub => 1,
            OperPrec::MulDiv => 2,
            OperPrec::Pow => 3,
            OperPrec::Negative => 4,
        }
    }

    /// The position of the level in the order, weakest first.
    pub fn level(&self) -> (r: u8)
        ensures
            r as nat == self.rank(),
    {
        match self {
            OperPrec::DefaultZero => 0,
            OperPrec::AddSub => 1,
            OperPrec::MulDiv => 2,
            OperPrec::Pow => 3,
            OperPrec::Negative => 4,
        }
    }

    /// Whether `self` binds strictly less tightly than `other`.
    pub fn is_weaker_than(&self, other: &OperPrec) -> (r: bool)
        ensures
            r == (self.rank() < other.rank()),
    {
        self.level() < other.level()
    }
}

/// One lexical unit; a number keeps the text of its literal.
#[derive(Debug, PartialEq, Clone)]
pub enum Token {
    Number(String),
    Add,
    Subtract,
    Multiply,
    Divide,
    LParen,
    RParen,
    Pow,
    EOF,
}

/// The mathematical shape of a [`Token`].
pub enum Tok {
    Number(Seq<char>),
    Add,
    Subtract,
    Multiply,
    Divide,
    LParen,
    RParen,
    Pow,
    Eof,
}

impl View for Token {
    type V = Tok;

    open spec fn view(&self) -> Tok {
        match self {
            Token::Number(s) => Tok::Number(s@),
            Token::Add => Tok::Add,
            Token::Subtract => Tok::Subtract,
            Token::Multiply => Tok::Multiply,
            Token::Divide => Tok::Divide,
            Token::LParen => Tok::LParen,
            Token::RParen => Tok::RParen,
            Token::Pow => Tok::Pow,
            Token::EOF => Tok::Eof,
        }
    }
}

/// The level at which a token acts as a binary operator; tokens that are
/// no binary operator sit at the weakest level.
pub open spec fn prec_of(t: Tok) -> OperPrec {
    match t {
        Tok::Add | Tok::Subtract => OperPrec::AddSub,
        Tok::Multiply | Tok::Divide => OperPrec::MulDiv,
        Tok::Pow => OperPrec::Pow,
        _ => OperPrec::DefaultZero,
    }
}

/// The name of a token, as its debug form writes it.
pub open spec fn token_name(t: Tok) -> Seq<char> {
    match t {
        Tok::Number(s) => "Number("@ + s + ")"@,
        Tok::Add => "Add"@,
        Tok::Subtract => "Subtract"@,
        Tok::Multiply => "Multiply"@,
        Tok::Divide => "Divide"@,
        Tok::LParen => "LParen"@,
        Tok::RParen => "RParen"@,
        Tok::Pow => "Pow"@,
        Tok::Eof => "EOF"@,
    }
}

impl Token {
    /// The name of this token, as its debug form writes it.
    pub fn name(&self) -> (r: String)
        ensures
            r@ == token_name(self@),
    {
        match self {
            Token::Number(s) => "Number(".to_owned().concat(s.as_str()).concat(")"),
            Token::Add => "Add".to_owned(),
            Token::Subtract => "Subtract".to_owned(),
            Token::Multiply => "Multiply".to_owned(),
            Token::Divide => "Divide".to_owned(),
            Token::LParen => "LParen".to_owned(),
            Token::RParen => "RParen".to_owned(),
            Token::Pow => "Pow".to_owned(),
            Token::EOF => "EOF".to_owned(),
        }
    }

    /// The level at which this token acts as a binary operator.
    pub fn get_oper_prec(&self) -> (r: OperPrec)
        ensures
            r == prec_of(self@),
    {
        match self {
            Token::Add | Token::Subtract => OperPrec::AddSub,
            Token::Multiply | Token::Divide => OperPrec::MulDiv,
            Token::Pow => OperPrec::Pow,
            _ => OperPrec::DefaultZero,
        }
    }
}

} // verus!
