use vstd::prelude::*;

use crate::error::{CommandError, ErrorKind};

verus! {

/// The characters that separate the words of a command line: those with the Unicode
/// White_Space property, which is what `char::is_whitespace` tests.
pub open spec fn is_blank(c: char) -> bool {
    let u = c as u32;
    ||| 0x9 <= u <= 0xD
    ||| u == 0x20
    ||| u == 0x85
    ||| u == 0xA0
    ||| u == 0x1680
    ||| 0x2000 <= u <= 0x200A
    ||| u == 0x2028
    ||| u == 0x2029
    ||| u == 0x202F
    ||| u == 0x205F
    ||| u == 0x3000
}

/// True when `s` holds at least one character that is not blank.
pub open spec fn has_word(s: Seq<char>) -> bool {
    exists|i: int| 0 <= i < s.len() && !is_blank(s[i])
}

/// The words of `s`: its maximal runs of non-blank characters, in order.
pub open spec fn words(s: Seq<char>) -> Seq<Seq<char>>
    decreases s.len(),
{
    if s.len() == 0 {
        Seq::empty()
    } else {
        let init = s.drop_last();
        let c = s.last();
        let w = words(init);
        if is_blank(c) {
            w
        } else if init.len() > 0 && !is_blank(init.last()) {
            w.drop_last().push(w.last().push(c))
        } else {
            w.push(seq![c])
        }
    }
}

/// What a sequence of strings holds, as character sequences.
pub open spec fn views(v: Seq<String>) -> Seq<Seq<char>> {
    v.map_values(|t: String| t@)
}

/// What a sequence of string pairs holds, as pairs of character sequences.
pub open spec fn pair_views(v: Seq<(String, String)>) -> Seq<(Seq<char>, Seq<char>)> {
    v.map_values(|p: (String, String)| (p.0@, p.1@))
}

/// The index of the first `=` of `s` at or after `from`, or the length of `s` if none.
pub open spec fn next_eq(s: Seq<char>, from: int) -> int
    decreases s.len() - from,
{
    if from >= s.len() {
        s.len() as int
    } else if s[from] == '=' {
        from
    } else {
        next_eq(s, from + 1)
    }
}

/// The name of an environment setting `name=value`: everything before the first `=`.
pub open spec fn env_name(s: Seq<char>) -> Seq<char> {
    s.take(next_eq(s, 0))
}

/// The value of an environment setting: what lies between the first `=` and the next one
/// (or the end), and empty where there is no `=` at all.
pub open spec fn env_value(s: Seq<char>) -> Seq<char> {
    let e = next_eq(s, 0);
    if e < s.len() {
        s.subrange(e + 1, next_eq(s, e + 1))
    } else {
        Seq::empty()
    }
}

/// The (name, value) pairs of a list of environment settings, in order.
pub open spec fn env_pairs_of(entries: Seq<Seq<char>>) -> Seq<(Seq<char>, Seq<char>)> {
    entries.map_values(|e: Seq<char>| (env_name(e), env_value(e)))
}

/// The mapping that a list of (name, value) pairs sets up: a later pair overrides an
/// earlier one of the same name.
pub open spec fn env_map(pairs: Seq<(Seq<char>, Seq<char>)>) -> Map<Seq<char>, Seq<char>>
    decreases pairs.len(),
{
    if pairs.len() == 0 {
        Map::empty()
    } else {
        env_map(pairs.drop_last()).insert(pairs.last().0, pairs.last().1)
    }
}

/// The environment overrides that a list of `name=value` settings stands for.
pub open spec fn env_overrides(entries: Option<Seq<Seq<char>>>) -> Map<Seq<char>, Seq<char>> {
    match entries {
        Some(e) => env_map(env_pairs_of(e)),
        None => Map::empty(),
    }
}

/// A string has words exactly when it has a non-blank character.
pub proof fn lemma_words_nonempty(s: Seq<char>)
    ensures
        words(s).len() > 0 <==> has_word(s),
    decreases s.len(),
{
    if s.len() > 0 {
        let init = s.drop_last();
        lemma_words_nonempty(init);
        if has_word(init) {
            let i = choose|i: int| 0 <= i < init.len() && !is_blank(init[i]);
            assert(s[i] == init[i]);
        }
        if has_word(s) && !is_blank(s.last()) {
            assert(words(s).len() > 0);
        } else if has_word(s) {
            let i = choose|i: int| 0 <= i < s.len() && !is_blank(s[i]);
            assert(i < s.len() - 1);
            assert(init[i] == s[i]);
        }
    }
}

fn blank(c: char) -> (r: bool)
    ensures
        r == is_blank(c),
{
    let u = c as u32;
    (0x9 <= u && u <= 0xD) || u == 0x20 || u == 0x85 || u == 0xA0 || u == 0x1680 || (0x2000
        <= u && u <= 0x200A) || u == 0x2028 || u == 0x2029 || u == 0x202F || u == 0x205F || u
        == 0x3000
}

/// Splits a command line into its words.
pub fn split_words(s: &str) -> (r: Vec<String>)
    ensures
        views(r@) == words(s@),
{
    let n = s.unicode_len();
    let mut out: Vec<String> = Vec::new();
    let mut start: usize = 0;
    let mut in_word = false;
    let mut i: usize = 0;
    while i < n
        invariant
            n == s@.len(),
            start <= i <= n,
            in_word == (i > 0 && !is_blank(s@[i - 1])),
            in_word ==> start < i && words(s@.take(i as int)) == views(out@).push(
                s@.subrange(start as int, i as int),
            ),
            !in_word ==> words(s@.take(i as int)) == views(out@),
        decreases n - i,
    {
        let c = s.get_char(i);
        let ghost prefix = s@.take(i + 1);
        proof {
            assert(prefix.drop_last() =~= s@.take(i as int));
            assert(prefix.last() == c);
            if i > 0 {
                assert(s@.take(i as int).last() == s@[i - 1]);
            }
        }
        if blank(c) {
            if in_word {
                let ghost before = views(out@);
                let t = s.substring_char(start, i).to_owned();
                out.push(t);
                proof {
                    assert(views(out@) =~= before.push(t@));
                }
            }
            in_word = false;
        } else {
            if in_word {
                proof {
                    assert(s@.subrange(start as int, i as int).push(c) =~= s@.subrange(
                        start as int,
                        i + 1,
                    ));
                }
            } else {
                start = i;
                proof {
                    assert(s@.subrange(i as int, i + 1) =~= seq![c]);
                }
            }
            in_word = true;
        }
        i = i + 1;
    }
    proof {
        assert(s@.take(n as int) =~= s@);
    }
    if in_word {
        let ghost before = views(out@);
        let t = s.substring_char(start, n).to_owned();
        out.push(t);
        proof {
            assert(views(out@) =~= before.push(t@));
        }
    }
    out
}

fn find_eq(s: &str, n: usize, from: usize) -> (r: usize)
    requires
        n == s@.len(),
        from <= n,
    ensures
        r == next_eq(s@, from as int),
        from <= r <= n,
{
    let mut i = from;
    while i < n
        invariant
            n == s@.len(),
            from <= i <= n,
            next_eq(s@, i as int) == next_eq(s@, from as int),
        decreases n - i,
    {
        if s.get_char(i) == '=' {
            return i;
        }
        i = i + 1;
    }
    i
}

/// Splits an environment setting `name=value` into its name and its value.
pub fn env_var_to_tuple(var: &str) -> (r: (String, String))
    ensures
        r.0@ == env_name(var@),
        r.1@ == env_value(var@),
{
    let n = var.unicode_len();
    let e = find_eq(var, n, 0);
    let name = var.substring_char(0, e).to_owned();
    if e < n {
        let f = find_eq(var, n, e + 1);
        (name, var.substring_char(e + 1, f).to_owned())
    } else {
        (name, String::new())
    }
}

/// A shell invocation: a program, its arguments and the environment overrides to apply.
pub struct Command {
    program: String,
    args: Vec<String>,
    env: Vec<(String, String)>,
}

/// The mathematical content of a [`Command`].
pub struct CommandView {
    pub program: Seq<char>,
    pub args: Seq<Seq<char>>,
    pub env: Map<Seq<char>, Seq<char>>,
}

impl View for Command {
    type V = CommandView;

    closed spec fn view(&self) -> CommandView {
        CommandView {
            program: self.program@,
            args: views(self.args@),
            env: env_map(pair_views(self.env@)),
        }
    }
}

impl Command {
    /// Builds the command that the line `cmd` and the settings `env` describe. The line is
    /// split on blanks; its first word is the program, the others are its arguments. A line
    /// without any word is a configuration error.
    pub fn parse(cmd: &str, env: &Option<Vec<String>>) -> (r: Result<Command, CommandError>)
        ensures
            r is Ok <==> has_word(cmd@),
            r matches Err(e) ==> e.kind == ErrorKind::Config,
            r matches Ok(c) ==> {
                &&& c@.program == words(cmd@)[0]
                &&& c@.args == words(cmd@).skip(1)
                &&& c@.env == env_overrides(
                    match env {
                        Some(v) => Some(views(v@)),
                        None => None,
                    },
                )
            },
    {
        let mut w = split_words(cmd);
        proof {
            lemma_words_nonempty(cmd@);
        }
        if w.len() == 0 {
            return Err(CommandError::new(ErrorKind::Config, "empty command string".to_owned()));
        }
        let ghost all = views(w@);
        let program = w.remove(0);
        proof {
            assert(views(w@) =~= all.skip(1));
        }
        let mut pairs: Vec<(String, String)> = Vec::new();
        match env {
            Some(vars) => {
                let mut i: usize = 0;
                while i < vars.len()
                    invariant
                        i <= vars@.len(),
                        pair_views(pairs@) == env_pairs_of(views(vars@).take(i as int)),
                    decreases vars@.len() - i,
                {
                    let ghost before = pair_views(pairs@);
                    let p = env_var_to_tuple(vars[i].as_str());
                    pairs.push(p);
                    proof {
                        assert(pair_views(pairs@) =~= before.push((p.0@, p.1@)));
                        assert(env_pairs_of(views(vars@).take(i + 1)) =~= env_pairs_of(
                            views(vars@).take(i as int),
                        ).push((env_name(vars@[i as int]@), env_value(vars@[i as int]@))));
                    }
                    i = i + 1;
                }
                proof {
                    assert(views(vars@).take(vars@.len() as int) =~= views(vars@));
                }
            },
            None => {
                proof {
                    assert(pair_views(pairs@) =~= Seq::empty());
                }
            },
        }
        Ok(Command { program, args: w, env: pairs })
    }

    /// The program to run.
    pub fn program(&self) -> (r: &String)
        ensures
            r@ == self@.program,
    {
        &self.program
    }

    /// The arguments handed to the program, in order.
    pub fn args(&self) -> (r: &Vec<String>)
        ensures
            views(r@) == self@.args,
    {
        &self.args
    }

    /// The environment overrides, as (name, value) pairs to apply in order.
    pub fn env_pairs(&self) -> (r: &Vec<(String, String)>)
        ensures
            env_map(pair_views(r@)) == self@.env,
    {
        &self.env
    }
}

} // verus!
