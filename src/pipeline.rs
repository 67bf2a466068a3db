//! The whole conversion: normalize, translate, optionally follow the cursor,
//! and render; and the frame of a complete program.
use crate::command::{commands_model, is_canonical, Command, CommandModel};
use crate::normalize::{
    error_from, first_error, lemma_normalized_concat, lemma_normalized_single, normalize,
    normalized, normalized_from, origin_after, origin_after_all, step_error, step_output,
    NormalizeError, OriginModel,
};
use crate::token::{rendered, tokens_model, Token, TokenModel};
use crate::translate::{
    convert_all, followed_all, lemma_translated_concat, translated, update_all,
};
use vstd::prelude::*;

verus! {

/// Every command that normalizing produces is canonical.
pub proof fn lemma_normalized_canonical(cs: Seq<CommandModel>, o: OriginModel)
    requires
        error_from(cs, o) is None,
    ensures
        forall|i: int|
            0 <= i < normalized_from(cs, o).len() ==> is_canonical(
                #[trigger] normalized_from(cs, o)[i],
            ),
    decreases cs.len(),
{
    if cs.len() > 0 {
        let s = step_output(cs[0], o);
        let rest = normalized_from(cs.drop_first(), origin_after(cs[0], o));
        lemma_normalized_canonical(cs.drop_first(), origin_after(cs[0], o));
        assert(step_error(cs[0], o) is None);
        assert forall|i: int| 0 <= i < s.len() implies is_canonical(#[trigger] s[i]) by {}
        assert forall|i: int|
            0 <= i < normalized_from(cs, o).len() implies is_canonical(
                #[trigger] normalized_from(cs, o)[i],
            ) by {
            if i < s.len() {
                assert(normalized_from(cs, o)[i] == s[i]);
            } else {
                assert(normalized_from(cs, o)[i] == rest[i - s.len()]);
            }
        }
    }
}

/// The tokens that a command list becomes, with or without the cursor updates.
pub open spec fn path_tokens(cs: Seq<CommandModel>, follow_cursor: bool) -> Seq<TokenModel> {
    if follow_cursor {
        followed_all(translated(normalized(cs)))
    } else {
        translated(normalized(cs))
    }
}

/// Converts the commands of a path into tokens: normalizes them, translates
/// each canonical command, and, when `follow_cursor` holds, follows each
/// positional token with the updates of `x` and `y`.
///
/// Fails exactly when normalizing fails, with the same error.
pub fn translate(commands: Vec<Command>, follow_cursor: bool) -> (r: Result<Vec<Token>, NormalizeError>)
    ensures
        match r {
            Ok(ts) => first_error(commands_model(commands@)) is None && tokens_model(ts@)
                == path_tokens(commands_model(commands@), follow_cursor),
            Err(e) => first_error(commands_model(commands@)) == Some(e),
        },
{
    let canonical = match normalize(commands) {
        Ok(v) => v,
        Err(e) => {
            return Err(e);
        },
    };
    proof {
        lemma_normalized_canonical(commands_model(commands@), None);
        assert forall|i: int| 0 <= i < canonical@.len() implies is_canonical(
            #[trigger] canonical@[i]@,
        ) by {
            assert(commands_model(canonical@)[i] == canonical@[i]@);
        }
    }
    let tokens = convert_all(canonical);
    if follow_cursor {
        Ok(update_all(tokens))
    } else {
        Ok(tokens)
    }
}

/// The line of text of each token, in order.
pub fn render_all(tokens: &Vec<Token>) -> (r: Vec<String>)
    ensures
        r@.len() == tokens@.len(),
        forall|i: int| 0 <= i < r@.len() ==> #[trigger] r@[i]@ == rendered(tokens@[i]@),
{
    let mut r: Vec<String> = Vec::new();
    let mut i: usize = 0;
    while i < tokens.len()
        invariant
            i <= tokens@.len(),
            r@.len() == i,
            forall|j: int| 0 <= j < i ==> #[trigger] r@[j]@ == rendered(tokens@[j]@),
        decreases tokens@.len() - i,
    {
        r.push(tokens[i].render());
        i = i + 1;
    }
    r
}

/// The opening of a program: the painter module, the algorithm and block
/// markers, and the declarations of `x` and `y`.
pub open spec fn prologue() -> Seq<TokenModel> {
    seq![
        TokenModel::Use(rendered(TokenModel::PainterModule)),
        TokenModel::AlgorithmStart,
        TokenModel::BlockStart,
        TokenModel::Variable("x"@),
        TokenModel::Variable("y"@),
    ]
}

/// A complete program around `body`: the prologue, the body, the block end.
pub fn program(body: Vec<Token>) -> (r: Vec<Token>)
    ensures
        tokens_model(r@) == prologue() + tokens_model(body@) + seq![TokenModel::BlockEnd],
{
    let mut r: Vec<Token> = Vec::new();
    r.push(Token::Use(Token::PainterModule.render()));
    r.push(Token::AlgorithmStart);
    r.push(Token::BlockStart);
    r.push(Token::Variable(String::from_str("x")));
    r.push(Token::Variable(String::from_str("y")));
    let ghost head = r@;
    let mut body = body;
    let ghost b = body@;
    r.append(&mut body);
    r.push(Token::BlockEnd);
    assert(tokens_model(r@) =~= prologue() + tokens_model(b) + seq![TokenModel::BlockEnd]);
    r
}

/// A command the dialect cannot draw produces no token and does not change
/// what the commands after it produce, nor whether the conversion fails.
pub proof fn lemma_other_is_dropped(pre: Seq<CommandModel>, post: Seq<CommandModel>, follow_cursor: bool)
    ensures
        first_error(pre + seq![CommandModel::Other] + post) == first_error(pre + post),
        path_tokens(pre + seq![CommandModel::Other] + post, follow_cursor) == path_tokens(
            pre + post,
            follow_cursor,
        ),
{
    let other = seq![CommandModel::Other];
    let o = origin_after_all(pre, None);
    lemma_normalized_single(CommandModel::Other, o);
    lemma_normalized_concat(pre, other, None);
    lemma_normalized_concat(pre + other, post, None);
    lemma_normalized_concat(pre, post, None);
    let a = normalized_from(pre, None);
    let b = normalized_from(post, o);
    assert(normalized(pre + other + post) == a + other + b);
    assert(normalized(pre + post) == a + b);
    lemma_translated_concat(a + other, b);
    lemma_translated_concat(a, other);
    lemma_translated_concat(a, b);
    assert(other.drop_first() =~= Seq::<CommandModel>::empty());
    assert(translated(other.drop_first()) == Seq::<TokenModel>::empty());
    assert(translated(other) =~= Seq::<TokenModel>::empty());
    assert(translated(a + other) =~= translated(a));
}

} // verus!
