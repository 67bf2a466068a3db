//! The translator from canonical commands to tokens, and the cursor tracker
//! that follows each positional token with updates of the variables `x`, `y`.
use crate::command::{commands_model, is_canonical, Command, CommandModel, Position};
use crate::token::{rendered, tokens_model, Token, TokenModel};
use vstd::prelude::*;

verus! {

/// The positional token for a pair: a move to a point when absolute, a move
/// by a vector when relative.
pub open spec fn positional(p: Position, x: Seq<char>, y: Seq<char>) -> TokenModel {
    match p {
        Position::Absolute => TokenModel::Move(x, y),
        Position::Relative => TokenModel::MoveRelative(x, y),
    }
}

/// The tokens of one canonical command. A single-axis line puts a literal
/// `0` on the other axis, in absolute mode as well as in relative mode.
pub open spec fn tokens_of(c: CommandModel) -> Seq<TokenModel> {
    match c {
        CommandModel::Move(p, ps) => seq![TokenModel::PenUp, positional(p, ps[0], ps[1])],
        CommandModel::Line(p, ps) => seq![TokenModel::PenDown, positional(p, ps[0], ps[1])],
        CommandModel::HorizontalLine(p, ps) => seq![
            TokenModel::PenDown,
            positional(p, ps[0], "0"@),
        ],
        CommandModel::VerticalLine(p, ps) => seq![
            TokenModel::PenDown,
            positional(p, "0"@, ps[0]),
        ],
        _ => seq![],
    }
}

/// The tokens of a list of canonical commands, in order.
pub open spec fn translated(cs: Seq<CommandModel>) -> Seq<TokenModel>
    decreases cs.len(),
{
    if cs.len() == 0 {
        seq![]
    } else {
        tokens_of(cs[0]) + translated(cs.drop_first())
    }
}

/// The expression `name + (value)`, as the dialect writes an addition.
pub open spec fn add_expr(name: Seq<char>, value: Seq<char>) -> Seq<char> {
    rendered(TokenModel::Add(name, value))
}

/// A token followed by the updates that keep `x` and `y` at the cursor.
pub open spec fn followed(t: TokenModel) -> Seq<TokenModel> {
    match t {
        TokenModel::Move(x, y) => seq![
            t,
            TokenModel::Assign("x"@, x),
            TokenModel::Assign("y"@, y),
        ],
        TokenModel::MoveRelative(x, y) => seq![
            t,
            TokenModel::Assign("x"@, add_expr("x"@, x)),
            TokenModel::Assign("y"@, add_expr("y"@, y)),
        ],
        _ => seq![t],
    }
}

/// Every token of a list followed by its cursor updates, in order.
pub open spec fn followed_all(ts: Seq<TokenModel>) -> Seq<TokenModel>
    decreases ts.len(),
{
    if ts.len() == 0 {
        seq![]
    } else {
        followed(ts[0]) + followed_all(ts.drop_first())
    }
}

/// Translating `a + b` is translating `a`, then `b`.
pub proof fn lemma_translated_concat(a: Seq<CommandModel>, b: Seq<CommandModel>)
    ensures
        translated(a + b) == translated(a) + translated(b),
    decreases a.len(),
{
    if a.len() == 0 {
        assert(a + b =~= b);
        assert(translated(a) + translated(b) =~= translated(b));
    } else {
        assert((a + b).drop_first() =~= a.drop_first() + b);
        assert((a + b)[0] == a[0]);
        lemma_translated_concat(a.drop_first(), b);
        assert(translated(a + b) =~= translated(a) + translated(b));
    }
}

/// Tracking `a + b` is tracking `a`, then `b`.
pub proof fn lemma_followed_concat(a: Seq<TokenModel>, b: Seq<TokenModel>)
    ensures
        followed_all(a + b) == followed_all(a) + followed_all(b),
    decreases a.len(),
{
    if a.len() == 0 {
        assert(a + b =~= b);
        assert(followed_all(a) + followed_all(b) =~= followed_all(b));
    } else {
        assert((a + b).drop_first() =~= a.drop_first() + b);
        assert((a + b)[0] == a[0]);
        lemma_followed_concat(a.drop_first(), b);
        assert(followed_all(a + b) =~= followed_all(a) + followed_all(b));
    }
}

/// The positional token for the pair `(x, y)`.
fn convert_move_cmd(position: Position, x: String, y: String) -> (r: Token)
    ensures
        r@ == positional(position, x@, y@),
{
    match position {
        Position::Absolute => Token::Move(x, y),
        Position::Relative => Token::MoveRelative(x, y),
    }
}

/// The positional token of a single-axis line: `d` on axis `cord_idx`
/// (0 for horizontal, 1 for vertical) and `0` on the other.
fn straight_line_construct_move(position: Position, d: String, cord_idx: usize) -> (r: Token)
    requires
        cord_idx <= 1,
    ensures
        cord_idx == 0 ==> r@ == positional(position, d@, "0"@),
        cord_idx == 1 ==> r@ == positional(position, "0"@, d@),
{
    let zero = String::from_str("0");
    if cord_idx == 0 {
        convert_move_cmd(position, d, zero)
    } else {
        convert_move_cmd(position, zero, d)
    }
}

/// The tokens of one canonical command: a pen token, then a positional one.
/// Commands the dialect cannot draw give no token.
pub fn convert(command: &Command) -> (r: Vec<Token>)
    requires
        is_canonical(command@),
    ensures
        tokens_model(r@) == tokens_of(command@),
{
    let mut r: Vec<Token> = Vec::new();
    match command {
        Command::Move(p, ps) => {
            r.push(Token::PenUp);
            r.push(convert_move_cmd(*p, ps[0].clone(), ps[1].clone()));
        },
        Command::Line(p, ps) => {
            r.push(Token::PenDown);
            r.push(convert_move_cmd(*p, ps[0].clone(), ps[1].clone()));
        },
        Command::HorizontalLine(p, ps) => {
            r.push(Token::PenDown);
            r.push(straight_line_construct_move(*p, ps[0].clone(), 0));
        },
        Command::VerticalLine(p, ps) => {
            r.push(Token::PenDown);
            r.push(straight_line_construct_move(*p, ps[0].clone(), 1));
        },
        _ => {},
    }
    assert(tokens_model(r@) =~= tokens_of(command@));
    r
}

/// The assignment `var := value`.
pub fn construct_assignment(var: &str, value: &String) -> (r: Token)
    ensures
        r@ == TokenModel::Assign(var@, value@),
{
    Token::Assign(String::from_str(var), value.clone())
}

/// The assignment `var := var + (value)`.
pub fn construct_add_equals(var: &str, value: &String) -> (r: Token)
    ensures
        r@ == TokenModel::Assign(var@, add_expr(var@, value@)),
{
    let sum = Token::Add(String::from_str(var), value.clone());
    Token::Assign(String::from_str(var), sum.render())
}

/// A token followed by the updates of `x` and `y` that a positional token
/// calls for: assignments after a move to a point, additions after a move
/// by a vector. Other tokens come back alone.
pub fn update_current_pos(cmd: Token) -> (r: Vec<Token>)
    ensures
        tokens_model(r@) == followed(cmd@),
{
    let mut r: Vec<Token> = Vec::new();
    match &cmd {
        Token::Move(x, y) => {
            let ax = construct_assignment("x", x);
            let ay = construct_assignment("y", y);
            r.push(cmd);
            r.push(ax);
            r.push(ay);
        },
        Token::MoveRelative(x, y) => {
            let ax = construct_add_equals("x", x);
            let ay = construct_add_equals("y", y);
            r.push(cmd);
            r.push(ax);
            r.push(ay);
        },
        _ => {
            r.push(cmd);
        },
    }
    assert(tokens_model(r@) =~= followed(cmd@));
    r
}

/// The tokens of a list of canonical commands, in order.
pub fn convert_all(commands: Vec<Command>) -> (r: Vec<Token>)
    requires
        forall|i: int| 0 <= i < commands@.len() ==> is_canonical(#[trigger] commands@[i]@),
    ensures
        tokens_model(r@) == translated(commands_model(commands@)),
{
    let ghost cs = commands_model(commands@);
    let mut r: Vec<Token> = Vec::new();
    let mut i: usize = 0;
    while i < commands.len()
        invariant
            i <= commands@.len(),
            cs == commands_model(commands@),
            forall|j: int| 0 <= j < commands@.len() ==> is_canonical(#[trigger] commands@[j]@),
            tokens_model(r@) == translated(cs.take(i as int)),
        decreases commands@.len() - i,
    {
        let mut piece = convert(&commands[i]);
        let ghost before = r@;
        let ghost p = piece@;
        r.append(&mut piece);
        proof {
            assert(cs.take(i + 1) =~= cs.take(i as int) + seq![cs[i as int]]);
            lemma_translated_concat(cs.take(i as int), seq![cs[i as int]]);
            let one = seq![cs[i as int]];
            assert(one.drop_first() =~= Seq::<CommandModel>::empty());
            assert(translated(one.drop_first()) == Seq::<TokenModel>::empty());
            assert(translated(one) =~= tokens_of(cs[i as int]));
            assert(tokens_model(r@) =~= tokens_model(before) + tokens_model(p));
        }
        i = i + 1;
    }
    assert(cs.take(i as int) =~= cs);
    r
}

/// Every token of a list followed by its cursor updates, in order.
pub fn update_all(tokens: Vec<Token>) -> (r: Vec<Token>)
    ensures
        tokens_model(r@) == followed_all(tokens_model(tokens@)),
{
    let ghost ts = tokens_model(tokens@);
    let mut rest = tokens;
    let mut r: Vec<Token> = Vec::new();
    let ghost mut k: int = 0;
    while rest.len() > 0
        invariant
            0 <= k <= ts.len(),
            rest@.len() == ts.len() - k,
            tokens_model(rest@) == ts.skip(k),
            tokens_model(r@) == followed_all(ts.take(k)),
        decreases rest@.len(),
    {
        let ghost old_rest = rest@;
        assert(tokens_model(old_rest) == ts.skip(k));
        let t = rest.remove(0);
        proof {
            assert(tokens_model(old_rest)[0] == old_rest[0]@);
            assert(t@ == ts[k]);
        }
        let mut piece = update_current_pos(t);
        let ghost before = r@;
        let ghost p = piece@;
        r.append(&mut piece);
        proof {
            assert(ts.take(k + 1) =~= ts.take(k) + seq![ts[k]]);
            lemma_followed_concat(ts.take(k), seq![ts[k]]);
            let one = seq![ts[k]];
            assert(one.drop_first() =~= Seq::<TokenModel>::empty());
            assert(followed_all(one.drop_first()) == Seq::<TokenModel>::empty());
            assert(followed_all(one) =~= followed(ts[k]));
            assert(tokens_model(r@) =~= tokens_model(before) + tokens_model(p));
            assert(rest@ =~= old_rest.drop_first());
            assert forall|j: int| 0 <= j < rest@.len() implies #[trigger] tokens_model(rest@)[j]
                == ts.skip(k + 1)[j] by {
                assert(tokens_model(rest@)[j] == old_rest[j + 1]@);
                assert(tokens_model(old_rest)[j + 1] == old_rest[j + 1]@);
                assert(ts.skip(k)[j + 1] == ts[k + 1 + j]);
            }
            assert(tokens_model(rest@) =~= ts.skip(k + 1));
            k = k + 1;
        }
    }
    assert(ts.take(k) =~= ts);
    r
}

} // verus!
