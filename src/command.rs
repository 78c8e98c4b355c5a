use vstd::prelude::*;
use crate::encoding::{all_base64_symbols, encodes, lemma_unwrap_encoded, unwrap_encoded, unwrapped};
use crate::text::has_char;

verus! {

/// How one character stands inside a double-quoted shell word.
pub open spec fn escape_char(c: char) -> Seq<char> {
    if c == '"' {
        seq!['\\', '"']
    } else if c == '\\' {
        seq!['\\', '\\']
    } else {
        seq![c]
    }
}

/// `s` with every double quote and backslash escaped by a backslash.
pub open spec fn escaped(s: Seq<char>) -> Seq<char>
    decreases s.len(),
{
    if s.len() == 0 {
        Seq::empty()
    } else {
        escape_char(s[0]) + escaped(s.skip(1))
    }
}

/// `cmd` as the argument of `bash -c`: wrapped in double quotes, with its
/// quotes and backslashes escaped, where it holds either; else unchanged.
pub open spec fn quoted(cmd: Seq<char>) -> Seq<char> {
    if has_char(cmd, '"') || has_char(cmd, '\\') {
        seq!['"'] + escaped(cmd) + seq!['"']
    } else {
        cmd
    }
}

/// The remote command line that runs `cmd`.
pub open spec fn invocation(cmd: Seq<char>) -> Seq<char> {
    seq!['b', 'a', 's', 'h', ' ', '-', 'c', ' '] + quoted(cmd)
}

/// The command lines that a list runs, in order: empty entries are
/// skipped, every other entry is decoded once where it is a base64 token.
pub open spec fn invocations(cmds: Seq<Seq<char>>) -> Seq<Seq<char>>
    decreases cmds.len(),
{
    if cmds.len() == 0 {
        Seq::empty()
    } else if cmds.last().len() == 0 {
        invocations(cmds.drop_last())
    } else {
        invocations(cmds.drop_last()).push(invocation(unwrapped(cmds.last())))
    }
}

/// What a shell reads from the body `t` of a double-quoted word: a
/// backslash before a quote or a backslash stands for that character; an
/// unescaped quote ends the word early, which gives `None`.
pub open spec fn double_quoted_reading(t: Seq<char>) -> Option<Seq<char>>
    decreases t.len(),
{
    if t.len() == 0 {
        Some(Seq::empty())
    } else if t[0] == '\\' && t.len() >= 2 && (t[1] == '"' || t[1] == '\\') {
        match double_quoted_reading(t.skip(2)) {
            Some(r) => Some(seq![t[1]] + r),
            None => None,
        }
    } else if t[0] == '"' {
        None
    } else {
        match double_quoted_reading(t.skip(1)) {
            Some(r) => Some(seq![t[0]] + r),
            None => None,
        }
    }
}

/// An escaped command reads back whole inside double quotes: no quote of
/// it ends the word early, and the shell sees the command unchanged.
pub proof fn lemma_escaped_reads_back(s: Seq<char>)
    ensures
        double_quoted_reading(escaped(s)) == Some(s),
    decreases s.len(),
{
    if s.len() > 0 {
        lemma_escaped_reads_back(s.skip(1));
        let t = escaped(s);
        let rest = escaped(s.skip(1));
        if s[0] == '"' || s[0] == '\\' {
            assert(t.skip(2) =~= rest);
        } else {
            assert(t.skip(1) =~= rest);
        }
        assert(seq![s[0]] + s.skip(1) =~= s);
    }
}

/// `cmd` with its double quotes and backslashes escaped.
pub fn escape_command(cmd: &str) -> (r: String)
    ensures
        r@ == escaped(cmd@),
{
    let n = cmd.unicode_len();
    let mut r = String::new();
    let mut i: usize = 0;
    assert(cmd@.skip(0) =~= cmd@);
    while i < n
        invariant
            n == cmd@.len(),
            i <= n,
            escaped(cmd@) == r@ + escaped(cmd@.skip(i as int)),
        decreases n - i,
    {
        let c = cmd.get_char(i);
        proof {
            reveal_strlit("\\\"");
            reveal_strlit("\\\\");
            assert(cmd@.skip(i as int).skip(1) =~= cmd@.skip(i + 1));
            assert(cmd@.skip(i as int)[0] == c);
        }
        let ghost before = r@;
        if c == '"' {
            r.append("\\\"");
        } else if c == '\\' {
            r.append("\\\\");
        } else {
            r.append(cmd.substring_char(i, i + 1));
        }
        assert(r@ =~= before + escape_char(c));
        assert(escaped(cmd@) =~= r@ + escaped(cmd@.skip(i + 1)));
        i = i + 1;
    }
    assert(r@ =~= r@ + escaped(cmd@.skip(n as int)));
    r
}

/// Whether `s` holds a double quote or a backslash.
pub fn needs_quoting(s: &str) -> (r: bool)
    ensures
        r == (has_char(s@, '"') || has_char(s@, '\\')),
{
    let n = s.unicode_len();
    let mut i: usize = 0;
    while i < n
        invariant
            n == s@.len(),
            i <= n,
            forall|j: int| 0 <= j < i ==> s@[j] != '"' && s@[j] != '\\',
        decreases n - i,
    {
        let c = s.get_char(i);
        if c == '"' || c == '\\' {
            return true;
        }
        i = i + 1;
    }
    false
}

/// `cmd` made ready to stand as the one argument of `bash -c`.
pub fn quote_command(cmd: &str) -> (r: String)
    ensures
        r@ == quoted(cmd@),
{
    if needs_quoting(cmd) {
        proof {
            reveal_strlit("\"");
        }
        let e = escape_command(cmd);
        let r = String::from_str("\"").concat(e.as_str()).concat("\"");
        r
    } else {
        String::from_str(cmd)
    }
}

/// The remote command line that runs `cmd` through `bash -c`.
pub fn shell_invocation(cmd: &str) -> (r: String)
    ensures
        r@ == invocation(cmd@),
{
    proof {
        reveal_strlit("bash -c ");
    }
    let q = quote_command(cmd);
    let r = String::from_str("bash -c ").concat(q.as_str());
    assert(r@ =~= invocation(cmd@));
    r
}

/// The command lines that `cmds` runs, in order.
pub fn plan_commands(cmds: &Vec<String>) -> (r: Vec<String>)
    ensures
        r@.map_values(|c: String| c@) == invocations(cmds@.map_values(|c: String| c@)),
{
    let ghost views = cmds@.map_values(|c: String| c@);
    let mut r: Vec<String> = Vec::new();
    let mut i: usize = 0;
    while i < cmds.len()
        invariant
            i <= cmds@.len(),
            views == cmds@.map_values(|c: String| c@),
            r@.map_values(|c: String| c@) == invocations(views.take(i as int)),
        decreases cmds@.len() - i,
    {
        proof {
            assert(views.take(i + 1).drop_last() =~= views.take(i as int));
            assert(views.take(i + 1).last() == cmds@[i as int]@);
        }
        if cmds[i].as_str().unicode_len() > 0 {
            let text = unwrap_encoded(cmds[i].as_str());
            let line = shell_invocation(text.as_str());
            r.push(line);
            assert(r@.map_values(|c: String| c@) =~= invocations(views.take(i as int)).push(
                invocation(unwrapped(cmds@[i as int]@)),
            ));
        }
        i = i + 1;
    }
    assert(views.take(cmds@.len() as int) =~= views);
    r
}

/// In a list of an empty entry, a literal command `a` and the base64 token
/// `e` of a command `s`, the empty entry is skipped, `a` runs as written
/// and `e` runs as `s`.
pub proof fn lemma_command_list(a: Seq<char>, e: Seq<char>, s: Seq<char>)
    requires
        a.len() > 0,
        !all_base64_symbols(a),
        encodes(e, s),
    ensures
        invocations(seq![Seq::empty(), a, e]) == seq![invocation(a), invocation(s)],
{
    let l = seq![Seq::<char>::empty(), a, e];
    let l2 = seq![Seq::<char>::empty(), a];
    let l1 = seq![Seq::<char>::empty()];
    assert(l.drop_last() =~= l2);
    assert(l2.drop_last() =~= l1);
    assert(l1.drop_last() =~= Seq::<Seq<char>>::empty());
    assert(invocations(Seq::<Seq<char>>::empty()) == Seq::<Seq<char>>::empty());
    assert(invocations(l1) == Seq::<Seq<char>>::empty());
    assert(unwrapped(a) == a);
    assert(invocations(l2) =~= seq![invocation(a)]);
    lemma_unwrap_encoded(e, s);
    assert(invocations(l) =~= seq![invocation(a), invocation(s)]);
}

/// A command that holds a double quote becomes one double-quoted word that
/// the shell reads back as the command itself.
pub proof fn lemma_quoted_is_one_word(cmd: Seq<char>)
    requires
        has_char(cmd, '"'),
    ensures
        quoted(cmd) == seq!['"'] + escaped(cmd) + seq!['"'],
        double_quoted_reading(escaped(cmd)) == Some(cmd),
{
    lemma_escaped_reads_back(cmd);
}

} // verus!
