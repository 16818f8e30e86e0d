use vstd::prelude::*;
use crate::error::CommandError;
use crate::words::{is_white_space, shell_words};

verus! {

/// Where the parser stands: before any line, after `cd` or `export`, or
/// inside the command.
#[derive(PartialEq, Eq, Structural, Clone, Copy, Debug)]
pub enum SpecState {
    Cd,
    Env,
    Cmd,
}

/// What the parser has gathered from the lines read so far.
pub struct Progress {
    pub state: SpecState,
    pub env: Seq<(Seq<char>, Seq<char>)>,
    pub cd: Option<Seq<char>>,
    pub lines: Seq<Seq<char>>,
}

/// A parsed invocation, as plain sequences of characters.
pub struct InvocationModel {
    pub binary: Seq<char>,
    pub args: Seq<Seq<char>>,
    pub env: Seq<(Seq<char>, Seq<char>)>,
    pub cd: Option<Seq<char>>,
}

pub open spec fn trim_start(t: Seq<char>) -> Seq<char>
    decreases t.len(),
{
    if t.len() > 0 && is_white_space(t[0]) {
        trim_start(t.drop_first())
    } else {
        t
    }
}

pub open spec fn trim_end(t: Seq<char>) -> Seq<char>
    decreases t.len(),
{
    if t.len() > 0 && is_white_space(t.last()) {
        trim_end(t.drop_last())
    } else {
        t
    }
}

/// `t` without its leading and trailing white space.
pub open spec fn trim(t: Seq<char>) -> Seq<char> {
    trim_end(trim_start(t))
}

pub open spec fn is_blank(t: Seq<char>) -> bool {
    forall|i: int| 0 <= i < t.len() ==> is_white_space(#[trigger] t[i])
}

/// The pieces of `u` between its newlines; there is always at least one.
pub open spec fn split_lines(u: Seq<char>) -> Seq<Seq<char>>
    decreases u.len(),
{
    if u.len() == 0 {
        seq![Seq::empty()]
    } else {
        let prev = split_lines(u.drop_last());
        if u.last() == '\n' {
            prev.push(Seq::empty())
        } else {
            prev.update(prev.len() - 1, prev.last().push(u.last()))
        }
    }
}

pub open spec fn cd_word() -> Seq<char> {
    seq!['c', 'd']
}

pub open spec fn export_word() -> Seq<char> {
    seq!['e', 'x', 'p', 'o', 'r', 't']
}

/// `i` is the position of the first `=` in `w`.
pub open spec fn first_eq(w: Seq<char>, i: int) -> bool {
    0 <= i < w.len() && w[i] == '=' && forall|j: int| 0 <= j < i ==> w[j] != '='
}

/// `NAME=VALUE` split at its first `=`, or `None` where it holds none.
pub open spec fn split_export(w: Seq<char>) -> Option<(Seq<char>, Seq<char>)> {
    if exists|i: int| first_eq(w, i) {
        let i = choose|i: int| first_eq(w, i);
        Some((w.take(i), w.skip(i + 1)))
    } else {
        None
    }
}

pub open spec fn key_at(env: Seq<(Seq<char>, Seq<char>)>, k: Seq<char>, i: int) -> bool {
    0 <= i < env.len() && env[i].0 == k
}

pub open spec fn keys_unique(env: Seq<(Seq<char>, Seq<char>)>) -> bool {
    forall|i: int, j: int| 0 <= i < j < env.len() ==> #[trigger] env[i].0 != #[trigger] env[j].0
}

/// `env` with `k` bound to `v`: an existing binding is replaced in place,
/// a new one goes at the end.
pub open spec fn set_var(env: Seq<(Seq<char>, Seq<char>)>, k: Seq<char>, v: Seq<char>) -> Seq<
    (Seq<char>, Seq<char>),
> {
    if exists|i: int| key_at(env, k, i) {
        env.update(choose|i: int| key_at(env, k, i), (k, v))
    } else {
        env.push((k, v))
    }
}

/// The bindings of the `export` items applied in order, or the first error.
pub open spec fn apply_exports(env: Seq<(Seq<char>, Seq<char>)>, items: Seq<Seq<char>>) -> Result<
    Seq<(Seq<char>, Seq<char>)>,
    CommandError,
>
    decreases items.len(),
{
    if items.len() == 0 {
        Ok(env)
    } else {
        match apply_exports(env, items.drop_last()) {
            Err(e) => Err(e),
            Ok(e2) => match split_export(items.last()) {
                None => Err(CommandError::InvalidExport),
                Some(kv) => Ok(set_var(e2, kv.0, kv.1)),
            },
        }
    }
}

/// The words of a split, or none where the split failed.
pub open spec fn words_or_none(words: Option<Seq<Seq<char>>>) -> Seq<Seq<char>> {
    match words {
        Some(w) => w,
        None => Seq::empty(),
    }
}

/// The words of a line before the command starts; a line that cannot be
/// split has none.
pub open spec fn line_words(line: Seq<char>) -> Seq<Seq<char>> {
    words_or_none(shell_words(line))
}

pub open spec fn initial() -> Progress {
    Progress { state: SpecState::Cd, env: Seq::empty(), cd: None, lines: Seq::empty() }
}

pub open spec fn ends_in_backslash(l: Seq<char>) -> bool {
    l.len() > 0 && l.last() == '\\'
}

/// A line of the command begins a new command line unless the line before
/// it ends in a backslash, or the command text so far does not split into
/// words (a quote is still open).
pub open spec fn starts_new_line(lines: Seq<Seq<char>>, text_splits: bool) -> bool {
    lines.len() == 0 || (!ends_in_backslash(lines.last()) && text_splits)
}

/// What one more line does to the parser, given how the line splits into
/// words and whether the command text gathered so far splits. Once the
/// command has started, a new command line that is a `cd` or an `export`
/// line is refused; any other line is command text.
pub open spec fn step_words(
    p: Progress,
    line: Seq<char>,
    split: Option<Seq<Seq<char>>>,
    text_splits: bool,
) -> Result<Progress, CommandError> {
    if p.state == SpecState::Cmd {
        let words = words_or_none(split);
        if starts_new_line(p.lines, text_splits) && words.len() > 0 && words[0] == cd_word() {
            Err(CommandError::NoChangeDir)
        } else if starts_new_line(p.lines, text_splits) && words.len() > 0 && words[0]
            == export_word() {
            Err(CommandError::ExportMispositioned)
        } else {
            Ok(Progress { state: p.state, env: p.env, cd: p.cd, lines: p.lines.push(line) })
        }
    } else if is_blank(line) {
        Ok(p)
    } else {
        let words = words_or_none(split);
        if words.len() > 0 && words[0] == cd_word() {
            if p.state != SpecState::Cd {
                Err(CommandError::NoChangeDir)
            } else if words.len() != 2 {
                Err(CommandError::TooManyCDArgs(1, (words.len() - 1) as usize))
            } else {
                Ok(Progress { state: SpecState::Env, env: p.env, cd: Some(words[1]), lines: p.lines })
            }
        } else if words.len() > 0 && words[0] == export_word() {
            if words.len() < 2 {
                Err(CommandError::NotEnoughExportArgs(1, (words.len() - 1) as usize))
            } else {
                match apply_exports(p.env, words.drop_first()) {
                    Err(e) => Err(e),
                    Ok(env) => Ok(Progress { state: SpecState::Env, env, cd: p.cd, lines: p.lines }),
                }
            }
        } else {
            Ok(Progress { state: SpecState::Cmd, env: p.env, cd: p.cd, lines: p.lines.push(line) })
        }
    }
}

/// What one more line does to the parser.
pub open spec fn step(p: Progress, line: Seq<char>) -> Result<Progress, CommandError> {
    step_words(p, line, shell_words(line), shell_words(command_text(p.lines)) is Some)
}

/// The parser after all of `lines`, or the first error.
pub open spec fn run(lines: Seq<Seq<char>>) -> Result<Progress, CommandError>
    decreases lines.len(),
{
    if lines.len() == 0 {
        Ok(initial())
    } else {
        match run(lines.drop_last()) {
            Err(e) => Err(e),
            Ok(p) => step(p, lines.last()),
        }
    }
}

/// A command line as it stands before another: one that ends in a
/// backslash loses it and runs straight into the next line; any other
/// is followed by a newline.
pub open spec fn joint(l: Seq<char>) -> Seq<char> {
    if ends_in_backslash(l) {
        l.drop_last()
    } else {
        l + seq!['\n']
    }
}

/// Each of `lines` as a line that another follows.
pub open spec fn lead(lines: Seq<Seq<char>>) -> Seq<char>
    decreases lines.len(),
{
    if lines.len() == 0 {
        Seq::empty()
    } else {
        lead(lines.drop_last()) + joint(lines.last())
    }
}

/// The command lines joined: a backslash that ends a line is removed with
/// the line break after it; other lines are joined by newlines.
pub open spec fn command_text(lines: Seq<Seq<char>>) -> Seq<char> {
    if lines.len() == 0 {
        Seq::empty()
    } else {
        lead(lines.drop_last()) + lines.last()
    }
}

/// The invocation once all lines are read, given how the command text
/// splits into words: the first word is the program, the others its
/// arguments.
pub open spec fn conclude(p: Progress, split: Option<Seq<Seq<char>>>) -> Result<
    InvocationModel,
    CommandError,
> {
    if p.state != SpecState::Cmd {
        Err(CommandError::NoCommand)
    } else {
        match split {
            Some(words) => if words.len() > 0 {
                Ok(
                    InvocationModel {
                        binary: words[0],
                        args: words.drop_first(),
                        env: p.env,
                        cd: p.cd,
                    },
                )
            } else {
                Err(CommandError::NoCommand)
            },
            None => Err(CommandError::NoCommand),
        }
    }
}

/// What a specification text denotes: the invocation, or the error.
pub open spec fn parse(text: Seq<char>) -> Result<InvocationModel, CommandError> {
    match run(split_lines(trim(text))) {
        Err(e) => Err(e),
        Ok(p) => conclude(p, shell_words(command_text(p.lines))),
    }
}

} // verus!

verus! {

proof fn lemma_trim_blank(t: Seq<char>)
    requires
        is_blank(t),
    ensures
        trim_start(t) == Seq::<char>::empty(),
    decreases t.len(),
{
    if t.len() > 0 {
        assert(is_white_space(t[0]));
        assert forall|i: int| 0 <= i < t.drop_first().len() implies is_white_space(
            #[trigger] t.drop_first()[i],
        ) by {
            assert(t.drop_first()[i] == t[i + 1]);
        }
        lemma_trim_blank(t.drop_first());
    }
}

/// A text of blank lines alone holds no command.
pub proof fn lemma_blank_text_has_no_command(text: Seq<char>)
    requires
        is_blank(text),
    ensures
        parse(text) == Err::<InvocationModel, CommandError>(CommandError::NoCommand),
{
    lemma_trim_blank(text);
    let e = Seq::<char>::empty();
    assert(trim(text) == e);
    let ls = split_lines(e);
    assert(ls == seq![e]);
    assert(ls.drop_last() =~= Seq::<Seq<char>>::empty());
    assert(is_blank(e));
    assert(run(ls.drop_last()) == Ok::<Progress, CommandError>(initial()));
    assert(ls.last() == e);
    assert(run(ls) == step(initial(), e));
}

/// Once a `cd` or an `export` line has been taken, a later `cd` line is
/// refused with `NoChangeDir`.
pub proof fn lemma_cd_after_cd_or_export(p: Progress, first: Seq<char>, later: Seq<char>)
    requires
        p.state != SpecState::Cmd,
        !is_blank(first),
        line_words(first).len() > 0,
        line_words(first)[0] == cd_word() || line_words(first)[0] == export_word(),
        step(p, first) is Ok,
        !is_blank(later),
        line_words(later).len() > 0,
        line_words(later)[0] == cd_word(),
    ensures
        step(step(p, first)->Ok_0, later) == Err::<Progress, CommandError>(CommandError::NoChangeDir),
{
    assert(cd_word()[0] != export_word()[0]);
    assert(step(p, first)->Ok_0.state == SpecState::Env);
}

/// A command line that ends in a backslash is joined to the next one: the
/// backslash and the line break both go.
pub proof fn lemma_continuation_joins(a: Seq<char>, b: Seq<char>)
    requires
        ends_in_backslash(a),
    ensures
        command_text(seq![a, b]) == a.drop_last() + b,
{
    let ls = seq![a, b];
    assert(ls.drop_last() =~= seq![a]);
    assert(seq![a].drop_last() =~= Seq::<Seq<char>>::empty());
    assert(lead(Seq::<Seq<char>>::empty()) == Seq::<char>::empty());
    assert(joint(a) == a.drop_last());
    assert(seq![a].last() == a);
    assert(lead(seq![a]) =~= a.drop_last());
}

/// Once a line fails, the lines after it change nothing.
pub(crate) proof fn lemma_run_stays_failed(lines: Seq<Seq<char>>, k: int)
    requires
        0 <= k <= lines.len(),
        run(lines.take(k)) is Err,
    ensures
        run(lines) == run(lines.take(k)),
    decreases lines.len() - k,
{
    if k < lines.len() {
        assert(lines.take(k + 1).drop_last() =~= lines.take(k));
        lemma_run_stays_failed(lines, k + 1);
    } else {
        assert(lines.take(k) =~= lines);
    }
}

/// A text whose first non-blank line exports variables and whose next one
/// is a `cd` line is refused with `NoChangeDir`.
pub proof fn lemma_cd_after_export_is_refused(text: Seq<char>)
    requires
        split_lines(trim(text)).len() >= 2,
        !is_blank(split_lines(trim(text))[0]),
        line_words(split_lines(trim(text))[0]).len() > 0,
        line_words(split_lines(trim(text))[0])[0] == export_word(),
        step(initial(), split_lines(trim(text))[0]) is Ok,
        !is_blank(split_lines(trim(text))[1]),
        line_words(split_lines(trim(text))[1]).len() > 0,
        line_words(split_lines(trim(text))[1])[0] == cd_word(),
    ensures
        parse(text) == Err::<InvocationModel, CommandError>(CommandError::NoChangeDir),
{
    let ls = split_lines(trim(text));
    assert(ls.take(1).drop_last() =~= Seq::<Seq<char>>::empty());
    assert(ls.take(1).last() == ls[0]);
    assert(run(ls.take(1).drop_last()) == Ok::<Progress, CommandError>(initial()));
    assert(run(ls.take(1)) == step(initial(), ls[0]));
    assert(ls.take(2).drop_last() =~= ls.take(1));
    assert(ls.take(2).last() == ls[1]);
    lemma_cd_after_cd_or_export(initial(), ls[0], ls[1]);
    assert(run(ls.take(2)) == Err::<Progress, CommandError>(CommandError::NoChangeDir));
    lemma_run_stays_failed(ls, 2);
}

/// Once the command has started, a new command line (the line before it
/// ends in no backslash and leaves no quote open) that is a `cd` line is
/// refused with `NoChangeDir`, and one that is an `export` line with
/// `ExportMispositioned`.
pub proof fn lemma_cd_or_export_in_command_is_refused(p: Progress, line: Seq<char>)
    requires
        p.state == SpecState::Cmd,
        starts_new_line(p.lines, shell_words(command_text(p.lines)) is Some),
        line_words(line).len() > 0,
    ensures
        line_words(line)[0] == cd_word() ==> step(p, line) == Err::<Progress, CommandError>(
            CommandError::NoChangeDir,
        ),
        line_words(line)[0] == export_word() ==> step(p, line) == Err::<Progress, CommandError>(
            CommandError::ExportMispositioned,
        ),
{
}

/// A text whose first non-blank line is a complete command line and whose
/// next line is a `cd` line is refused with `NoChangeDir`; with an `export`
/// line there, it is refused with `ExportMispositioned`.
pub proof fn lemma_cd_or_export_after_command_is_refused(text: Seq<char>)
    requires
        split_lines(trim(text)).len() >= 2,
        !is_blank(split_lines(trim(text))[0]),
        shell_words(split_lines(trim(text))[0]) is Some,
        !ends_in_backslash(split_lines(trim(text))[0]),
        line_words(split_lines(trim(text))[0]).len() > 0,
        line_words(split_lines(trim(text))[0])[0] != cd_word(),
        line_words(split_lines(trim(text))[0])[0] != export_word(),
        line_words(split_lines(trim(text))[1]).len() > 0,
    ensures
        line_words(split_lines(trim(text))[1])[0] == cd_word() ==> parse(text) == Err::<
            InvocationModel,
            CommandError,
        >(CommandError::NoChangeDir),
        line_words(split_lines(trim(text))[1])[0] == export_word() ==> parse(text) == Err::<
            InvocationModel,
            CommandError,
        >(CommandError::ExportMispositioned),
{
    let ls = split_lines(trim(text));
    assert(ls.take(1).drop_last() =~= Seq::<Seq<char>>::empty());
    assert(ls.take(1).last() == ls[0]);
    assert(run(ls.take(1).drop_last()) == Ok::<Progress, CommandError>(initial()));
    let p1 = Progress { state: SpecState::Cmd, env: Seq::empty(), cd: None, lines: seq![ls[0]] };
    assert(initial().lines.push(ls[0]) =~= seq![ls[0]]);
    assert(run(ls.take(1)) == Ok::<Progress, CommandError>(p1));
    assert(seq![ls[0]].drop_last() =~= Seq::<Seq<char>>::empty());
    assert(lead(Seq::<Seq<char>>::empty()) == Seq::<char>::empty());
    assert(command_text(p1.lines) =~= ls[0]);
    assert(ls.take(2).drop_last() =~= ls.take(1));
    assert(ls.take(2).last() == ls[1]);
    lemma_cd_or_export_in_command_is_refused(p1, ls[1]);
    if line_words(ls[1])[0] == cd_word() || line_words(ls[1])[0] == export_word() {
        assert(run(ls.take(2)) is Err);
        lemma_run_stays_failed(ls, 2);
    }
}

} // verus!
