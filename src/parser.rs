use vstd::prelude::*;
use crate::error::CommandError;
use crate::grammar::{
    apply_exports, cd_word, command_text, conclude, ends_in_backslash, export_word, first_eq, initial, is_blank,
    key_at, keys_unique, lead, lemma_run_stays_failed, parse, run, set_var, split_export, split_lines, step_words,
    trim, trim_end, trim_start, words_or_none, InvocationModel, Progress, SpecState,
};
use crate::words::{chars_of, is_white_space, is_whitespace, split_words, views_of};

verus! {

/// Where `t` starts and ends once its outer white space is removed.
fn trim_bounds(t: &Vec<char>) -> (r: (usize, usize))
    ensures
        r.0 <= r.1 <= t@.len(),
        trim(t@) == t@.subrange(r.0 as int, r.1 as int),
{
    let n = t.len();
    let mut lo: usize = 0;
    assert(t@.subrange(0, n as int) =~= t@);
    while lo < n && is_whitespace(t[lo])
        invariant
            n == t@.len(),
            lo <= n,
            trim_start(t@.subrange(lo as int, n as int)) == trim_start(t@),
        decreases n - lo,
    {
        assert(t@.subrange(lo as int, n as int).drop_first() =~= t@.subrange(lo + 1, n as int));
        lo += 1;
    }
    assert(trim_start(t@) == t@.subrange(lo as int, n as int)) by {
        if lo < n {
            assert(t@.subrange(lo as int, n as int)[0] == t@[lo as int]);
        }
    }
    let mut hi: usize = n;
    while hi > lo && is_whitespace(t[hi - 1])
        invariant
            n == t@.len(),
            lo <= hi <= n,
            trim_start(t@) == t@.subrange(lo as int, n as int),
            trim_end(t@.subrange(lo as int, hi as int)) == trim(t@),
        decreases hi,
    {
        assert(t@.subrange(lo as int, hi as int).drop_last() =~= t@.subrange(lo as int, hi - 1));
        hi -= 1;
    }
    assert(trim_end(t@.subrange(lo as int, hi as int)) == t@.subrange(lo as int, hi as int)) by {
        if hi > lo {
            assert(t@.subrange(lo as int, hi as int).last() == t@[hi - 1]);
        }
    }
    (lo, hi)
}

} // verus!

verus! {

proof fn lemma_split_lines_nonempty(u: Seq<char>)
    ensures
        split_lines(u).len() >= 1,
    decreases u.len(),
{
    if u.len() > 0 {
        lemma_split_lines_nonempty(u.drop_last());
    }
}

/// The lines of `value` between positions `lo` and `hi`.
fn lines_between(value: &str, t: &Vec<char>, lo: usize, hi: usize) -> (r: Vec<String>)
    requires
        t@ == value@,
        lo <= hi <= t@.len(),
    ensures
        views_of(r@) == split_lines(t@.subrange(lo as int, hi as int)),
{
    let mut lines: Vec<String> = Vec::new();
    let mut start: usize = lo;
    let mut i: usize = lo;
    assert(t@.subrange(lo as int, lo as int) =~= Seq::<char>::empty());
    assert(views_of(lines@).push(t@.subrange(start as int, i as int)) =~= split_lines(
        t@.subrange(lo as int, i as int),
    ));
    while i < hi
        invariant
            t@ == value@,
            lo <= start <= i <= hi <= t@.len(),
            views_of(lines@).push(t@.subrange(start as int, i as int)) == split_lines(
                t@.subrange(lo as int, i as int),
            ),
        decreases hi - i,
    {
        let ghost u = t@.subrange(lo as int, i + 1);
        assert(u.drop_last() =~= t@.subrange(lo as int, i as int));
        assert(u.last() == t@[i as int]);
        proof {
            lemma_split_lines_nonempty(u.drop_last());
        }
        if t[i] == '\n' {
            let ghost old_lines = lines@;
            let line = value.substring_char(start, i).to_owned();
            lines.push(line);
            assert(views_of(lines@) =~= views_of(old_lines).push(t@.subrange(start as int, i as int)));
            start = i + 1;
            assert(t@.subrange(start as int, i + 1) =~= Seq::<char>::empty());
            assert(split_lines(u) == split_lines(u.drop_last()).push(Seq::<char>::empty()));
            assert(views_of(lines@).push(t@.subrange(start as int, i + 1)) =~= split_lines(u));
        } else {
            let ghost prev = split_lines(u.drop_last());
            assert(prev.last() == t@.subrange(start as int, i as int));
            assert(t@.subrange(start as int, i + 1) =~= prev.last().push(t@[i as int]));
            assert(views_of(lines@).push(t@.subrange(start as int, i + 1)) =~= split_lines(u));
        }
        i += 1;
    }
    let ghost old_lines = lines@;
    let line = value.substring_char(start, hi).to_owned();
    lines.push(line);
    assert(views_of(lines@) =~= views_of(old_lines).push(t@.subrange(start as int, hi as int)));
    assert(views_of(lines@) =~= split_lines(t@.subrange(lo as int, hi as int)));
    lines
}

} // verus!

verus! {

/// The bindings of an environment, as sequences of characters.
pub open spec fn env_view(v: Seq<(String, String)>) -> Seq<(Seq<char>, Seq<char>)> {
    v.map_values(|p: (String, String)| (p.0@, p.1@))
}

/// `w` split at its first `=`.
fn split_at_eq(w: &String) -> (r: Option<(String, String)>)
    ensures
        match r {
            Some(kv) => split_export(w@) == Some((kv.0@, kv.1@)),
            None => split_export(w@) is None,
        },
{
    let s = w.as_str();
    let n = s.unicode_len();
    let mut i: usize = 0;
    while i < n
        invariant
            n == w@.len(),
            s@ == w@,
            i <= n,
            forall|j: int| 0 <= j < i ==> w@[j] != '=',
        decreases n - i,
    {
        if s.get_char(i) == '=' {
            assert(first_eq(w@, i as int));
            assert forall|j: int| first_eq(w@, j) implies j == i by {
                if j < i {
                } else if j > i {
                    assert(w@[i as int] == '=');
                }
            }
            let key = s.substring_char(0, i).to_owned();
            let value = s.substring_char(i + 1, n).to_owned();
            assert(key@ =~= w@.take(i as int));
            assert(value@ =~= w@.skip(i + 1));
            return Some((key, value));
        }
        i += 1;
    }
    assert(!exists|j: int| first_eq(w@, j));
    None
}

/// Binds `k` to `v` in `env`, in place where `k` is bound already.
fn set_env(env: &mut Vec<(String, String)>, k: String, v: String)
    requires
        keys_unique(env_view(old(env)@)),
    ensures
        env_view(final(env)@) == set_var(env_view(old(env)@), k@, v@),
        keys_unique(env_view(final(env)@)),
{
    let ghost ev = env_view(env@);
    let n = env.len();
    let mut i: usize = 0;
    while i < n
        invariant
            n == env@.len(),
            env@ == old(env)@,
            ev == env_view(env@),
            keys_unique(ev),
            i <= n,
            forall|j: int| 0 <= j < i ==> ev[j].0 != k@,
        decreases n - i,
    {
        if env[i].0 == k {
            assert(key_at(ev, k@, i as int));
            assert forall|j: int| key_at(ev, k@, j) implies j == i by {
                if j > i {
                    assert(ev[i as int].0 != ev[j].0);
                }
            }
            assert(key_at(ev, k@, (choose|j: int| key_at(ev, k@, j))));
            assert((choose|j: int| key_at(ev, k@, j)) == i);
            env[i] = (k, v);
            assert(env_view(env@) =~= ev.update(i as int, (k@, v@)));
            return;
        }
        i += 1;
    }
    assert(!exists|j: int| key_at(ev, k@, j));
    env.push((k, v));
    assert(env_view(env@) =~= ev.push((k@, v@)));
}

/// Applies the items of an `export` line (all words after the first) to `env`.
fn apply_export_items(env: &mut Vec<(String, String)>, words: &Vec<String>) -> (r: Result<(), CommandError>)
    requires
        words@.len() >= 1,
        keys_unique(env_view(old(env)@)),
    ensures
        match apply_exports(env_view(old(env)@), views_of(words@).drop_first()) {
            Ok(e) => r is Ok && env_view(final(env)@) == e,
            Err(e) => r == Err::<(), CommandError>(e),
        },
        keys_unique(env_view(final(env)@)),
{
    let ghost e0 = env_view(env@);
    let ghost items = views_of(words@).drop_first();
    let n = words.len();
    let mut i: usize = 1;
    assert(items.take(0) =~= Seq::<Seq<char>>::empty());
    while i < n
        invariant
            n == words@.len(),
            1 <= i <= n,
            items == views_of(words@).drop_first(),
            e0 == env_view(old(env)@),
            keys_unique(env_view(env@)),
            apply_exports(e0, items.take(i - 1)) == Ok::<Seq<(Seq<char>, Seq<char>)>, CommandError>(env_view(env@)),
        decreases n - i,
    {
        assert(items.take(i as int).drop_last() =~= items.take(i - 1));
        assert(items.take(i as int).last() == words@[i as int]@);
        match split_at_eq(&words[i]) {
            None => {
                assert(apply_exports(e0, items.take(i as int)) == Err::<
                    Seq<(Seq<char>, Seq<char>)>,
                    CommandError,
                >(CommandError::InvalidExport));
                proof {
                    lemma_exports_stay_failed(e0, items, i as int);
                }
                return Err(CommandError::InvalidExport);
            },
            Some(kv) => {
                set_env(env, kv.0, kv.1);
            },
        }
        i += 1;
    }
    assert(items.take(n - 1) =~= items);
    Ok(())
}

/// Once an `export` item fails, the items after it change nothing.
proof fn lemma_exports_stay_failed(e0: Seq<(Seq<char>, Seq<char>)>, items: Seq<Seq<char>>, k: int)
    requires
        1 <= k <= items.len(),
        apply_exports(e0, items.take(k)) is Err,
    ensures
        apply_exports(e0, items) == apply_exports(e0, items.take(k)),
    decreases items.len() - k,
{
    if k < items.len() {
        assert(items.take(k + 1).drop_last() =~= items.take(k));
        lemma_exports_stay_failed(e0, items, k + 1);
    } else {
        assert(items.take(k) =~= items);
    }
}

} // verus!

verus! {

/// The characters of each string, or `None`.
pub open spec fn opt_view(o: Option<String>) -> Option<Seq<char>> {
    match o {
        Some(s) => Some(s@),
        None => None,
    }
}

/// The words of a split, as sequences of characters.
pub open spec fn split_view(o: Option<Vec<String>>) -> Option<Seq<Seq<char>>> {
    match o {
        Some(v) => Some(views_of(v@)),
        None => None,
    }
}

/// A command specification read line by line: what the lines so far have
/// set up, and the command lines gathered.
pub struct SpecParser {
    state: SpecState,
    env: Vec<(String, String)>,
    cd: Option<String>,
    lines: Vec<String>,
}

impl View for SpecParser {
    type V = Progress;

    closed spec fn view(&self) -> Progress {
        Progress {
            state: self.state,
            env: env_view(self.env@),
            cd: opt_view(self.cd),
            lines: views_of(self.lines@),
        }
    }
}

fn is_blank_str(s: &str) -> (r: bool)
    ensures
        r == is_blank(s@),
{
    let n = s.unicode_len();
    let mut i: usize = 0;
    while i < n
        invariant
            n == s@.len(),
            i <= n,
            forall|j: int| 0 <= j < i ==> is_white_space(#[trigger] s@[j]),
        decreases n - i,
    {
        if !is_whitespace(s.get_char(i)) {
            return false;
        }
        i += 1;
    }
    true
}

fn ends_with_backslash(l: &String) -> (r: bool)
    ensures
        r == ends_in_backslash(l@),
{
    let s = l.as_str();
    let m = s.unicode_len();
    m > 0 && s.get_char(m - 1) == '\\'
}

fn is_cd_word(w: &String) -> (r: bool)
    ensures
        r == (w@ == cd_word()),
{
    let s = w.as_str();
    let r = s.unicode_len() == 2 && s.get_char(0) == 'c' && s.get_char(1) == 'd';
    assert(r ==> s@ =~= cd_word());
    r
}

fn is_export_word(w: &String) -> (r: bool)
    ensures
        r == (w@ == export_word()),
{
    let s = w.as_str();
    let r = s.unicode_len() == 6 && s.get_char(0) == 'e' && s.get_char(1) == 'x' && s.get_char(2)
        == 'p' && s.get_char(3) == 'o' && s.get_char(4) == 'r' && s.get_char(5) == 't';
    assert(r ==> s@ =~= export_word());
    r
}

impl SpecParser {
    /// Each variable is bound once.
    pub closed spec fn wf(&self) -> bool {
        keys_unique(self@.env)
    }

    /// A parser that has read nothing.
    pub fn new() -> (r: SpecParser)
        ensures
            r.wf(),
            r@ == initial(),
    {
        let r = SpecParser { state: SpecState::Cd, env: Vec::new(), cd: None, lines: Vec::new() };
        assert(r@.env =~= initial().env);
        assert(r@.lines =~= initial().lines);
        r
    }

    /// Reads one line, given the words that it splits into (`None` where it
    /// cannot be split) and whether the command text gathered so far splits
    /// into words.
    pub fn feed(&mut self, line: String, split: Option<Vec<String>>, text_splits: bool) -> (r: Result<
        (),
        CommandError,
    >)
        requires
            old(self).wf(),
        ensures
            final(self).wf(),
            match step_words(old(self)@, line@, split_view(split), text_splits) {
                Ok(p) => r is Ok && final(self)@ == p,
                Err(e) => r == Err::<(), CommandError>(e),
            },
    {
        let ghost p = self@;
        let words = match split {
            Some(w) => w,
            None => Vec::new(),
        };
        assert(views_of(words@) =~= words_or_none(split_view(split)));
        if self.state == SpecState::Cmd {
            let n = self.lines.len();
            let new_line = n == 0 || (!ends_with_backslash(&self.lines[n - 1]) && text_splits);
            if new_line && words.len() > 0 && is_cd_word(&words[0]) {
                return Err(CommandError::NoChangeDir);
            }
            if new_line && words.len() > 0 && is_export_word(&words[0]) {
                return Err(CommandError::ExportMispositioned);
            }
            self.lines.push(line);
            assert(self@.lines =~= p.lines.push(line@));
            return Ok(());
        }
        if is_blank_str(line.as_str()) {
            return Ok(());
        }
        if words.len() > 0 && is_cd_word(&words[0]) {
            if self.state != SpecState::Cd {
                return Err(CommandError::NoChangeDir);
            }
            if words.len() != 2 {
                return Err(CommandError::TooManyCDArgs(1, words.len() - 1));
            }
            self.cd = Some(words[1].clone());
            self.state = SpecState::Env;
            Ok(())
        } else if words.len() > 0 && is_export_word(&words[0]) {
            if words.len() < 2 {
                return Err(CommandError::NotEnoughExportArgs(1, words.len() - 1));
            }
            match apply_export_items(&mut self.env, &words) {
                Err(e) => Err(e),
                Ok(()) => {
                    self.state = SpecState::Env;
                    Ok(())
                },
            }
        } else {
            self.lines.push(line);
            assert(self@.lines =~= p.lines.push(line@));
            self.state = SpecState::Cmd;
            Ok(())
        }
    }

    /// Whether the command has started.
    pub fn in_command(&self) -> (r: bool)
        ensures
            r == (self@.state == SpecState::Cmd),
    {
        self.state == SpecState::Cmd
    }

    /// The command lines joined into one text, continuations removed.
    pub fn command_line(&self) -> (r: String)
        ensures
            r@ == command_text(self@.lines),
    {
        join_command(&self.lines)
    }

    /// The invocation, given the words that the command text splits into.
    pub fn finish(self, split: Option<Vec<String>>) -> (r: Result<CommandSpec, CommandError>)
        ensures
            match r {
                Ok(c) => conclude(self@, split_view(split)) == Ok::<InvocationModel, CommandError>(
                    c.model(),
                ),
                Err(e) => conclude(self@, split_view(split)) == Err::<InvocationModel, CommandError>(
                    e,
                ),
            },
    {
        if self.state != SpecState::Cmd {
            return Err(CommandError::NoCommand);
        }
        match split {
            None => Err(CommandError::NoCommand),
            Some(mut words) => {
                if words.len() == 0 {
                    return Err(CommandError::NoCommand);
                }
                let ghost ws = views_of(words@);
                let binary = words.remove(0);
                assert(views_of(words@) =~= ws.drop_first());
                Ok(CommandSpec { binary, args: words, env: self.env, cd: self.cd })
            },
        }
    }
}

/// The command lines joined as `command_text` says.
fn join_command(lines: &Vec<String>) -> (r: String)
    ensures
        r@ == command_text(views_of(lines@)),
{
    let ghost ls = views_of(lines@);
    let mut acc = String::new();
    let n = lines.len();
    if n == 0 {
        return acc;
    }
    let mut k: usize = 0;
    assert(ls.take(0) =~= Seq::<Seq<char>>::empty());
    while k + 1 < n
        invariant
            n == lines@.len(),
            ls == views_of(lines@),
            k + 1 <= n,
            acc@ == lead(ls.take(k as int)),
        decreases n - k,
    {
        let l = lines[k].as_str();
        let m = l.unicode_len();
        if m > 0 && l.get_char(m - 1) == '\\' {
            acc.append(l.substring_char(0, m - 1));
            assert(l@.subrange(0, m - 1) =~= l@.drop_last());
        } else {
            acc.append(l);
            proof {
                reveal_strlit("\n");
            }
            acc.append("\n");
        }
        assert(ls.take(k + 1).drop_last() =~= ls.take(k as int));
        assert(ls.take(k + 1).last() == l@);
        assert(acc@ =~= lead(ls.take(k + 1)));
        k += 1;
    }
    acc.append(lines[n - 1].as_str());
    assert(ls.drop_last() =~= ls.take(n - 1));
    acc
}

} // verus!

verus! {

/// A parsed invocation: the program, its arguments, the variables exported
/// to it (each name once, in the order first bound) and the directory named
/// by `cd`, if any.
pub struct CommandSpec {
    pub binary: String,
    pub args: Vec<String>,
    pub env: Vec<(String, String)>,
    pub cd: Option<String>,
}

impl CommandSpec {
    pub open spec fn model(&self) -> InvocationModel {
        InvocationModel {
            binary: self.binary@,
            args: views_of(self.args@),
            env: env_view(self.env@),
            cd: opt_view(self.cd),
        }
    }
}

/// Parses a command specification: an optional `cd <dir>` line, then any
/// number of `export NAME=VALUE ...` lines, then the command, whose lines a
/// trailing backslash continues. Blank lines before the command are skipped.
pub fn parse_command_spec(value: &str) -> (r: Result<CommandSpec, CommandError>)
    ensures
        match r {
            Ok(c) => parse(value@) == Ok::<InvocationModel, CommandError>(c.model()),
            Err(e) => parse(value@) == Err::<InvocationModel, CommandError>(e),
        },
{
    let t = chars_of(value);
    let (lo, hi) = trim_bounds(&t);
    let lines = lines_between(value, &t, lo, hi);
    let ghost ls = views_of(lines@);
    let mut parser = SpecParser::new();
    assert(ls.take(0) =~= Seq::<Seq<char>>::empty());
    let n = lines.len();
    let mut k: usize = 0;
    while k < n
        invariant
            n == lines@.len(),
            ls == views_of(lines@),
            ls == split_lines(trim(value@)),
            k <= n,
            parser.wf(),
            run(ls.take(k as int)) == Ok::<Progress, CommandError>(parser@),
        decreases n - k,
    {
        assert(ls.take(k + 1).drop_last() =~= ls.take(k as int));
        assert(ls.take(k + 1).last() == lines@[k as int]@);
        let line = lines[k].clone();
        let split = split_words(line.as_str());
        let text = parser.command_line();
        let text_splits = split_words(text.as_str()).is_some();
        match parser.feed(line, split, text_splits) {
            Err(e) => {
                proof {
                    lemma_run_stays_failed(ls, k + 1);
                }
                return Err(e);
            },
            Ok(()) => {},
        }
        k += 1;
    }
    assert(ls.take(n as int) =~= ls);
    if !parser.in_command() {
        return Err(CommandError::NoCommand);
    }
    let text = parser.command_line();
    let split = split_words(text.as_str());
    parser.finish(split)
}

} // verus!
