//! The command normalizer: splits every polyline into single segments and
//! rewrites every `Close` into a line back to the origin of the path.
use crate::command::{commands_model, texts, Command, CommandModel, Position};
use itertools::Itertools;
use vstd::prelude::*;

verus! {

/// Why a command list cannot be normalized.
#[derive(Clone, Copy, Debug, PartialEq, Eq, Structural)]
pub enum NormalizeError {
    /// A `Move` with no numbers, or with an odd count of them.
    MalformedMove,
    /// A `Close` before any `Move`.
    CloseWithoutMove,
}

/// The point a path starts at, as the text of its two coordinates.
pub type OriginModel = Option<(Seq<char>, Seq<char>)>;

/// The error, if any, that one command raises given the current origin.
pub open spec fn step_error(c: CommandModel, o: OriginModel) -> Option<NormalizeError> {
    match c {
        CommandModel::Move(_, ps) => if ps.len() == 0 || ps.len() % 2 == 1 {
            Some(NormalizeError::MalformedMove)
        } else {
            None
        },
        CommandModel::Close => if o is None {
            Some(NormalizeError::CloseWithoutMove)
        } else {
            None
        },
        _ => None,
    }
}

/// The origin after one command: a `Move` sets it to its first pair.
pub open spec fn origin_after(c: CommandModel, o: OriginModel) -> OriginModel {
    match c {
        CommandModel::Move(_, ps) => if ps.len() >= 2 {
            Some((ps[0], ps[1]))
        } else {
            o
        },
        _ => o,
    }
}

/// One `Line` for each pair of `ps` from the pair numbered `from` on.
pub open spec fn line_pairs(p: Position, ps: Seq<Seq<char>>, from: int) -> Seq<CommandModel> {
    let n = ps.len() / 2 - from;
    Seq::new(
        if n >= 0 { n as nat } else { 0 },
        |k: int| CommandModel::Line(p, seq![ps[2 * (k + from)], ps[2 * (k + from) + 1]]),
    )
}

/// The canonical commands that one command becomes given the current origin.
pub open spec fn step_output(c: CommandModel, o: OriginModel) -> Seq<CommandModel> {
    match c {
        CommandModel::Move(p, ps) => seq![CommandModel::Move(p, seq![ps[0], ps[1]])] + line_pairs(
            p,
            ps,
            1,
        ),
        CommandModel::Line(p, ps) => line_pairs(p, ps, 0),
        CommandModel::HorizontalLine(p, ps) => Seq::new(
            ps.len(),
            |k: int| CommandModel::HorizontalLine(p, seq![ps[k]]),
        ),
        CommandModel::VerticalLine(p, ps) => Seq::new(
            ps.len(),
            |k: int| CommandModel::VerticalLine(p, seq![ps[k]]),
        ),
        CommandModel::Close => match o {
            Some((x, y)) => seq![CommandModel::Line(Position::Absolute, seq![x, y])],
            None => seq![],
        },
        CommandModel::Other => seq![CommandModel::Other],
    }
}

/// The origin after a list of commands, starting from `o`.
pub open spec fn origin_after_all(cs: Seq<CommandModel>, o: OriginModel) -> OriginModel
    decreases cs.len(),
{
    if cs.len() == 0 {
        o
    } else {
        origin_after_all(cs.drop_first(), origin_after(cs[0], o))
    }
}

/// The canonical form of a list of commands, starting from origin `o`.
pub open spec fn normalized_from(cs: Seq<CommandModel>, o: OriginModel) -> Seq<CommandModel>
    decreases cs.len(),
{
    if cs.len() == 0 {
        seq![]
    } else {
        step_output(cs[0], o) + normalized_from(cs.drop_first(), origin_after(cs[0], o))
    }
}

/// The first error that a list of commands raises, starting from origin `o`.
pub open spec fn error_from(cs: Seq<CommandModel>, o: OriginModel) -> Option<NormalizeError>
    decreases cs.len(),
{
    if cs.len() == 0 {
        None
    } else if step_error(cs[0], o) is Some {
        step_error(cs[0], o)
    } else {
        error_from(cs.drop_first(), origin_after(cs[0], o))
    }
}

/// The canonical form of a whole command list.
pub open spec fn normalized(cs: Seq<CommandModel>) -> Seq<CommandModel> {
    normalized_from(cs, None)
}

/// The first error of a whole command list.
pub open spec fn first_error(cs: Seq<CommandModel>) -> Option<NormalizeError> {
    error_from(cs, None)
}

/// Normalizing `a + b` is normalizing `a`, then `b` from where `a` left the origin.
pub proof fn lemma_normalized_concat(a: Seq<CommandModel>, b: Seq<CommandModel>, o: OriginModel)
    ensures
        normalized_from(a + b, o) == normalized_from(a, o) + normalized_from(
            b,
            origin_after_all(a, o),
        ),
        origin_after_all(a + b, o) == origin_after_all(b, origin_after_all(a, o)),
        error_from(a + b, o) == (if error_from(a, o) is Some {
            error_from(a, o)
        } else {
            error_from(b, origin_after_all(a, o))
        }),
    decreases a.len(),
{
    if a.len() == 0 {
        assert(a + b =~= b);
        assert(normalized_from(a, o) + normalized_from(b, o) =~= normalized_from(b, o));
    } else {
        assert((a + b).drop_first() =~= a.drop_first() + b);
        assert((a + b)[0] == a[0]);
        lemma_normalized_concat(a.drop_first(), b, origin_after(a[0], o));
        assert(normalized_from(a + b, o) =~= normalized_from(a, o) + normalized_from(
            b,
            origin_after_all(a, o),
        ));
    }
}

/// Normalizing a single command is its step.
pub proof fn lemma_normalized_single(c: CommandModel, o: OriginModel)
    ensures
        normalized_from(seq![c], o) == step_output(c, o),
        origin_after_all(seq![c], o) == origin_after(c, o),
        error_from(seq![c], o) == step_error(c, o),
{
    let s = seq![c];
    let e = Seq::<CommandModel>::empty();
    assert(s.drop_first() =~= e);
    assert(normalized_from(e, origin_after(c, o)) == e);
    assert(origin_after_all(e, origin_after(c, o)) == origin_after(c, o));
    assert(error_from(e, origin_after(c, o)) is None);
    assert(step_output(c, o) + Seq::<CommandModel>::empty() =~= step_output(c, o));
}

/// Commands other than `Move` leave the origin where it is.
pub proof fn lemma_origin_kept(mid: Seq<CommandModel>, o: OriginModel)
    requires
        forall|i: int| 0 <= i < mid.len() ==> !(#[trigger] mid[i] is Move),
    ensures
        origin_after_all(mid, o) == o,
    decreases mid.len(),
{
    if mid.len() > 0 {
        assert(!(mid[0] is Move));
        assert forall|i: int| 0 <= i < mid.drop_first().len() implies !(
        #[trigger] mid.drop_first()[i] is Move) by {
            assert(mid.drop_first()[i] == mid[i + 1]);
        }
        lemma_origin_kept(mid.drop_first(), o);
    }
}

/// A `Move` with `2 * n` numbers, `n >= 1`, appended to a list that
/// normalizes, adds exactly `n` canonical commands: a `Move` to its first
/// pair, then a `Line` to each further pair in order, all in the `Move`'s
/// mode and each with two numbers.
pub proof fn lemma_move_splits(pre: Seq<CommandModel>, p: Position, ps: Seq<Seq<char>>, n: int)
    requires
        n >= 1,
        ps.len() == 2 * n,
        first_error(pre) is None,
    ensures
        first_error(pre.push(CommandModel::Move(p, ps))) is None,
        normalized(pre.push(CommandModel::Move(p, ps))).len() == normalized(pre).len() + n,
        normalized(pre.push(CommandModel::Move(p, ps))).take(normalized(pre).len() as int)
            == normalized(pre),
        normalized(pre.push(CommandModel::Move(p, ps)))[normalized(pre).len() as int]
            == CommandModel::Move(p, seq![ps[0], ps[1]]),
        forall|k: int|
            1 <= k < n ==> #[trigger] normalized(pre.push(CommandModel::Move(p, ps)))[normalized(
                pre,
            ).len() + k] == CommandModel::Line(p, seq![ps[2 * k], ps[2 * k + 1]]),
{
    let m = CommandModel::Move(p, ps);
    let o = origin_after_all(pre, None);
    assert(pre.push(m) =~= pre + seq![m]);
    lemma_normalized_concat(pre, seq![m], None);
    lemma_normalized_single(m, o);
    let a = normalized(pre);
    let all = normalized(pre.push(m));
    assert(all == a + step_output(m, o));
    assert(all.take(a.len() as int) =~= a);
    assert forall|k: int| 1 <= k < n implies #[trigger] all[a.len() + k] == CommandModel::Line(
        p,
        seq![ps[2 * k], ps[2 * k + 1]],
    ) by {
        assert(step_output(m, o)[k] == line_pairs(p, ps, 1)[k - 1]);
    }
}

/// A `Close` after a `Move` and any commands but `Move` normalizes to a
/// `Line(Absolute)` to the first pair of that `Move`.
pub proof fn lemma_close_returns_to_origin(
    pre: Seq<CommandModel>,
    p: Position,
    ps: Seq<Seq<char>>,
    mid: Seq<CommandModel>,
)
    requires
        ps.len() >= 2,
        forall|i: int| 0 <= i < mid.len() ==> !(#[trigger] mid[i] is Move),
        first_error(pre.push(CommandModel::Move(p, ps)) + mid) is None,
    ensures
        first_error((pre.push(CommandModel::Move(p, ps)) + mid).push(CommandModel::Close)) is None,
        normalized((pre.push(CommandModel::Move(p, ps)) + mid).push(CommandModel::Close)).last()
            == CommandModel::Line(Position::Absolute, seq![ps[0], ps[1]]),
{
    let m = CommandModel::Move(p, ps);
    let head = pre.push(m);
    let whole = head + mid;
    assert(head =~= pre + seq![m]);
    lemma_normalized_concat(pre, seq![m], None);
    lemma_normalized_single(m, origin_after_all(pre, None));
    lemma_normalized_concat(head, mid, None);
    lemma_origin_kept(mid, origin_after_all(head, None));
    assert(origin_after_all(whole, None) == Some((ps[0], ps[1])));
    assert(whole.push(CommandModel::Close) =~= whole + seq![CommandModel::Close]);
    lemma_normalized_concat(whole, seq![CommandModel::Close], None);
    lemma_normalized_single(CommandModel::Close, origin_after_all(whole, None));
}

/// Relies on itertools' `Itertools::tuples`, which groups an iterator's items
/// into consecutive pairs in order and drops a last item left without a partner.
#[verifier::external_body]
fn pairs(v: &Vec<String>) -> (r: Vec<(String, String)>)
    ensures
        r@.len() == v@.len() / 2,
        forall|k: int|
            #![trigger r@[k]]
            0 <= k < r@.len() ==> r@[k].0@ == v@[2 * k]@ && r@[k].1@ == v@[2 * k + 1]@,
{
    v.iter().cloned().tuples::<(String, String)>().collect()
}

/// The model of an origin held in the normalizer.
pub open spec fn origin_model(o: &Option<(String, String)>) -> OriginModel {
    match o {
        Some((x, y)) => Some((x@, y@)),
        None => None,
    }
}

/// Appends one `Line` for each pair of `pairs` from index `from` on.
fn push_lines(p: Position, ps: &Vec<String>, pairs: &Vec<(String, String)>, from: usize, out: &mut Vec<Command>)
    requires
        pairs@.len() == ps@.len() / 2,
        forall|k: int|
            #![trigger pairs@[k]]
            0 <= k < pairs@.len() ==> pairs@[k].0@ == ps@[2 * k]@ && pairs@[k].1@
                == ps@[2 * k + 1]@,
        from <= pairs@.len(),
    ensures
        commands_model(final(out)@) == commands_model(old(out)@) + line_pairs(p, texts(ps@), from as int),
{
    let ghost start = commands_model(out@);
    let ghost t = texts(ps@);
    let mut k: usize = from;
    while k < pairs.len()
        invariant
            from <= k <= pairs@.len(),
            pairs@.len() == ps@.len() / 2,
            forall|j: int|
                #![trigger pairs@[j]]
                0 <= j < pairs@.len() ==> pairs@[j].0@ == ps@[2 * j]@ && pairs@[j].1@
                    == ps@[2 * j + 1]@,
            t == texts(ps@),
            commands_model(out@) == start + line_pairs(p, t, from as int).take(k - from),
        decreases pairs@.len() - k,
    {
        let x = pairs[k].0.clone();
        let y = pairs[k].1.clone();
        let mut v: Vec<String> = Vec::new();
        v.push(x);
        v.push(y);
        let ghost before = out@;
        out.push(Command::Line(p, v));
        proof {
            assert(v@ =~= seq![pairs@[k as int].0, pairs@[k as int].1]);
            assert(2 * k + 1 < ps@.len());
            assert(pairs@[k as int].0@ == ps@[2 * k as int]@);
            assert(texts(v@)[0] == v@[0]@);
            assert(texts(v@)[1] == v@[1]@);
            assert(t[2 * k as int] == ps@[2 * k as int]@);
            assert(t[2 * k as int + 1] == ps@[2 * k as int + 1]@);
            assert(texts(v@) =~= seq![t[2 * k as int], t[2 * k as int + 1]]);
            assert(commands_model(out@) =~= commands_model(before).push(
                CommandModel::Line(p, texts(v@)),
            ));
            assert(line_pairs(p, t, from as int).take(k + 1 - from) =~= line_pairs(
                p,
                t,
                from as int,
            ).take(k - from).push(CommandModel::Line(p, texts(v@))));
        }
        k = k + 1;
    }
    assert(line_pairs(p, t, from as int).take(k - from) =~= line_pairs(p, t, from as int));
}

/// Appends one single-axis line for each number of `ps`.
fn push_single_axis(vertical: bool, p: Position, ps: &Vec<String>, out: &mut Vec<Command>)
    ensures
        commands_model(final(out)@) == commands_model(old(out)@) + Seq::new(
            ps@.len(),
            |k: int|
                if vertical {
                    CommandModel::VerticalLine(p, seq![ps@[k]@])
                } else {
                    CommandModel::HorizontalLine(p, seq![ps@[k]@])
                },
        ),
{
    let ghost start = commands_model(out@);
    let ghost all = Seq::new(
        ps@.len(),
        |k: int|
            if vertical {
                CommandModel::VerticalLine(p, seq![ps@[k]@])
            } else {
                CommandModel::HorizontalLine(p, seq![ps@[k]@])
            },
    );
    let mut k: usize = 0;
    while k < ps.len()
        invariant
            k <= ps@.len(),
            all.len() == ps@.len(),
            forall|j: int|
                0 <= j < ps@.len() ==> #[trigger] all[j] == (if vertical {
                    CommandModel::VerticalLine(p, seq![ps@[j]@])
                } else {
                    CommandModel::HorizontalLine(p, seq![ps@[j]@])
                }),
            commands_model(out@) == start + all.take(k as int),
        decreases ps@.len() - k,
    {
        let mut v: Vec<String> = Vec::new();
        v.push(ps[k].clone());
        let ghost before = out@;
        if vertical {
            out.push(Command::VerticalLine(p, v));
        } else {
            out.push(Command::HorizontalLine(p, v));
        }
        proof {
            assert(texts(v@) =~= seq![ps@[k as int]@]);
            assert(commands_model(out@) =~= commands_model(before).push(all[k as int]));
            assert(all.take(k + 1) =~= all.take(k as int).push(all[k as int]));
        }
        k = k + 1;
    }
    assert(all.take(k as int) =~= all);
}

/// Normalizes one command: appends its canonical form to `out` and moves the
/// origin, or reports why the command is malformed.
fn normalize_step(c: &Command, origin: &mut Option<(String, String)>, out: &mut Vec<Command>) -> (r:
    Result<(), NormalizeError>)
    ensures
        match r {
            Ok(()) => step_error(c@, origin_model(old(origin))) is None && commands_model(
                final(out)@,
            ) == commands_model(old(out)@) + step_output(c@, origin_model(old(origin)))
                && origin_model(final(origin)) == origin_after(c@, origin_model(old(origin))),
            Err(e) => step_error(c@, origin_model(old(origin))) == Some(e),
        },
{
    let ghost o = origin_model(origin);
    let ghost start = commands_model(out@);
    match c {
        Command::Move(p, ps) => {
            if ps.len() == 0 || ps.len() % 2 == 1 {
                return Err(NormalizeError::MalformedMove);
            }
            let pairs = pairs(ps);
            assert(pairs@[0].0@ == ps@[0]@ && pairs@[0].1@ == ps@[1]@);
            let mut first: Vec<String> = Vec::new();
            first.push(pairs[0].0.clone());
            first.push(pairs[0].1.clone());
            out.push(Command::Move(*p, first));
            *origin = Some((pairs[0].0.clone(), pairs[0].1.clone()));
            let ghost mid = commands_model(out@);
            proof {
                assert(texts(first@) =~= seq![texts(ps@)[0], texts(ps@)[1]]);
                assert(mid =~= start + seq![CommandModel::Move(*p, seq![texts(ps@)[0], texts(ps@)[1]])]);
            }
            push_lines(*p, ps, &pairs, 1, out);
            assert(commands_model(out@) =~= start + step_output(c@, o));
        },
        Command::Line(p, ps) => {
            let pairs = pairs(ps);
            push_lines(*p, ps, &pairs, 0, out);
        },
        Command::HorizontalLine(p, ps) => {
            push_single_axis(false, *p, ps, out);
            assert(commands_model(out@) =~= start + step_output(c@, o));
        },
        Command::VerticalLine(p, ps) => {
            push_single_axis(true, *p, ps, out);
            assert(commands_model(out@) =~= start + step_output(c@, o));
        },
        Command::Close => {
            match origin {
                Some((x, y)) => {
                    let mut v: Vec<String> = Vec::new();
                    v.push(x.clone());
                    v.push(y.clone());
                    out.push(Command::Line(Position::Absolute, v));
                    assert(texts(v@) =~= seq![x@, y@]);
                    assert(commands_model(out@) =~= start + step_output(c@, o));
                },
                None => {
                    return Err(NormalizeError::CloseWithoutMove);
                },
            }
        },
        Command::Other => {
            out.push(Command::Other);
            assert(commands_model(out@) =~= start + step_output(c@, o));
        },
    }
    Ok(())
}

/// Rewrites a command list into canonical form: each `Move` keeps its first
/// pair and becomes a `Move` to it followed by a `Line` to each further pair;
/// each `Line` becomes one `Line` per pair; each single-axis line one line per
/// number; each `Close` a `Line(Absolute)` to the first pair of the latest
/// `Move`; every other command passes through.
///
/// The origin is the first pair of the latest `Move` as written. For an
/// absolute `Move`, or a relative one that opens the list, that is the
/// absolute start of the path; the library does no arithmetic on numbers, so
/// a later relative `Move` is not resolved against the cursor.
///
/// Fails, with nothing produced, on the first `Move` with no numbers or an odd
/// count of them, or the first `Close` before any `Move`.
pub fn normalize(commands: Vec<Command>) -> (r: Result<Vec<Command>, NormalizeError>)
    ensures
        match r {
            Ok(v) => first_error(commands_model(commands@)) is None && commands_model(v@)
                == normalized(commands_model(commands@)),
            Err(e) => first_error(commands_model(commands@)) == Some(e),
        },
{
    let ghost cs = commands_model(commands@);
    let mut out: Vec<Command> = Vec::new();
    let mut origin: Option<(String, String)> = None;
    let mut i: usize = 0;
    while i < commands.len()
        invariant
            i <= commands@.len(),
            cs == commands_model(commands@),
            error_from(cs.take(i as int), None) is None,
            commands_model(out@) == normalized_from(cs.take(i as int), None),
            origin_model(&origin) == origin_after_all(cs.take(i as int), None),
        decreases commands@.len() - i,
    {
        let ghost o = origin_model(&origin);
        let ghost before = commands_model(out@);
        let step = normalize_step(&commands[i], &mut origin, &mut out);
        proof {
            assert(cs.take(i + 1) =~= cs.take(i as int) + seq![cs[i as int]]);
            lemma_normalized_concat(cs.take(i as int), seq![cs[i as int]], None);
            lemma_normalized_single(cs[i as int], o);
        }
        match step {
            Ok(()) => {},
            Err(e) => {
                proof {
                    assert(cs =~= cs.take(i + 1) + cs.skip(i + 1));
                    lemma_normalized_concat(cs.take(i + 1), cs.skip(i + 1), None);
                }
                return Err(e);
            },
        }
        i = i + 1;
    }
    assert(cs.take(i as int) =~= cs);
    Ok(out)
}

} // verus!
