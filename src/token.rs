//! Output tokens of the turtle dialect and their textual form.
use vstd::prelude::*;

verus! {

/// One instruction of the dialect, with numbers and expressions as text.
#[derive(Clone, Debug)]
pub enum Token {
    Use(String),
    AlgorithmStart,
    BlockStart,
    BlockEnd,
    PenDown,
    PenUp,
    Move(String, String),
    MoveRelative(String, String),
    Variable(String),
    Assign(String, String),
    Add(String, String),
    PainterModule,
}

/// The mathematical value of a [`Token`].
pub enum TokenModel {
    Use(Seq<char>),
    AlgorithmStart,
    BlockStart,
    BlockEnd,
    PenDown,
    PenUp,
    Move(Seq<char>, Seq<char>),
    MoveRelative(Seq<char>, Seq<char>),
    Variable(Seq<char>),
    Assign(Seq<char>, Seq<char>),
    Add(Seq<char>, Seq<char>),
    PainterModule,
}

impl View for Token {
    type V = TokenModel;

    open spec fn view(&self) -> TokenModel {
        match self {
            Token::Use(m) => TokenModel::Use(m@),
            Token::AlgorithmStart => TokenModel::AlgorithmStart,
            Token::BlockStart => TokenModel::BlockStart,
            Token::BlockEnd => TokenModel::BlockEnd,
            Token::PenDown => TokenModel::PenDown,
            Token::PenUp => TokenModel::PenUp,
            Token::Move(x, y) => TokenModel::Move(x@, y@),
            Token::MoveRelative(x, y) => TokenModel::MoveRelative(x@, y@),
            Token::Variable(n) => TokenModel::Variable(n@),
            Token::Assign(n, e) => TokenModel::Assign(n@, e@),
            Token::Add(n, e) => TokenModel::Add(n@, e@),
            Token::PainterModule => TokenModel::PainterModule,
        }
    }
}

/// The models of a list of tokens.
pub open spec fn tokens_model(ts: Seq<Token>) -> Seq<TokenModel> {
    ts.map_values(|t: Token| t@)
}

/// The line of text that stands for a token in the dialect.
pub open spec fn rendered(t: TokenModel) -> Seq<char> {
    match t {
        TokenModel::Use(m) => "использовать "@ + m,
        TokenModel::AlgorithmStart => "алг"@,
        TokenModel::BlockStart => "нач"@,
        TokenModel::BlockEnd => "кон"@,
        TokenModel::PenDown => "опустить перо"@,
        TokenModel::PenUp => "поднять перо"@,
        TokenModel::Move(x, y) => "сместиться в точку("@ + x + ", "@ + y + ")"@,
        TokenModel::MoveRelative(x, y) => "сместиться на вектор("@ + x + ", "@ + y + ")"@,
        TokenModel::Variable(n) => "вещ "@ + n,
        TokenModel::Assign(n, e) => n + " := "@ + e,
        TokenModel::Add(n, e) => n + " + ("@ + e + ")"@,
        TokenModel::PainterModule => "Чертежник"@,
    }
}

/// Text of the form `a`, `b`, `c` joined in order.
fn join3(a: &str, b: &str, c: &str) -> (r: String)
    ensures
        r@ == a@ + b@ + c@,
{
    String::from_str(a).concat(b).concat(c)
}

/// Text of the form `a`, `b`, `c`, `d`, `e` joined in order.
fn join5(a: &str, b: &str, c: &str, d: &str, e: &str) -> (r: String)
    ensures
        r@ == a@ + b@ + c@ + d@ + e@,
{
    String::from_str(a).concat(b).concat(c).concat(d).concat(e)
}

impl Token {
    /// The line of text that stands for this token.
    pub fn render(&self) -> (r: String)
        ensures
            r@ == rendered(self@),
    {
        match self {
            Token::Use(m) => String::from_str("использовать ").concat(m.as_str()),
            Token::AlgorithmStart => String::from_str("алг"),
            Token::BlockStart => String::from_str("нач"),
            Token::BlockEnd => String::from_str("кон"),
            Token::PenDown => String::from_str("опустить перо"),
            Token::PenUp => String::from_str("поднять перо"),
            Token::Move(x, y) => join5("сместиться в точку(", x.as_str(), ", ", y.as_str(), ")"),
            Token::MoveRelative(x, y) => join5(
                "сместиться на вектор(",
                x.as_str(),
                ", ",
                y.as_str(),
                ")",
            ),
            Token::Variable(n) => String::from_str("вещ ").concat(n.as_str()),
            Token::Assign(n, e) => join3(n.as_str(), " := ", e.as_str()),
            Token::Add(n, e) => join3(n.as_str(), " + (", e.as_str()).concat(")"),
            Token::PainterModule => String::from_str("Чертежник"),
        }
    }
}

} // verus!
