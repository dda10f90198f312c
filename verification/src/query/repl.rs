//! The interactive shell's commands: what a typed line asks for. The shell
//! reads lines, asks `repl_command` what to do, and runs the queries.
use crate::text::{is_whitespace, is_ws, join, join_range, starts_with, string_from_chars, to_chars, trim, trim_str, views};
use vstd::prelude::*;

verus! {

/// What a line typed into the shell asks for.
#[derive(Debug, PartialEq, Eq)]
pub enum ReplCommand {
    /// Nothing (a blank line).
    Nothing,
    /// Leave the shell.
    Exit,
    /// Print this text.
    Print(String),
    /// List the callers of a symbol, as a table.
    Callers(String),
    /// List the callees of a symbol, as a table.
    Callees(String),
    /// List a file's dependencies, as a table.
    Deps(String),
    /// Show the context of a symbol, or else of a file.
    Context(String),
    /// Run the line as a Cypher query.
    Query(String),
}

/// The whitespace-separated words of `s[i..]`, the current word being
/// `cur` (std's `str::split_whitespace`).
pub open spec fn words_from(s: Seq<char>, i: int, cur: Seq<char>) -> Seq<Seq<char>>
    decreases s.len() - i,
{
    if i < 0 || i >= s.len() {
        if cur.len() > 0 {
            seq![cur]
        } else {
            seq![]
        }
    } else if is_ws(s[i]) {
        (if cur.len() > 0 {
            seq![cur]
        } else {
            seq![]
        }) + words_from(s, i + 1, seq![])
    } else {
        words_from(s, i + 1, cur.push(s[i]))
    }
}

/// The whitespace-separated words of `s`.
pub open spec fn words(s: Seq<char>) -> Seq<Seq<char>> {
    words_from(s, 0, seq![])
}

/// The words of `s`.
pub fn split_words(s: &[char]) -> (r: Vec<Vec<char>>)
    ensures
        views(r@) == words(s@),
{
    let mut out: Vec<Vec<char>> = Vec::new();
    let mut cur: Vec<char> = Vec::new();
    let mut i: usize = 0;
    proof {
        assert(views(out@) =~= seq![]);
        assert(views(out@) + words_from(s@, 0, cur@) =~= words(s@));
    }
    while i < s.len()
        invariant
            i <= s@.len(),
            views(out@) + words_from(s@, i as int, cur@) == words(s@),
        decreases s.len() - i,
    {
        let ghost before = views(out@);
        if is_whitespace(s[i]) {
            if cur.len() > 0 {
                let ghost cv = cur@;
                out.push(cur);
                cur = Vec::new();
                proof {
                    assert(views(out@) =~= before.push(cv));
                    assert(views(out@) + words_from(s@, i + 1, cur@) =~= before + (seq![cv] + words_from(s@, i + 1, seq![])));
                }
            } else {
                proof {
                    assert(cur@ =~= seq![]);
                    assert(views(out@) + words_from(s@, i + 1, cur@) =~= before + (Seq::<Seq<char>>::empty() + words_from(s@, i + 1, seq![])));
                }
            }
        } else {
            cur.push(s[i]);
        }
        i = i + 1;
    }
    if cur.len() > 0 {
        let ghost before = views(out@);
        let ghost cv = cur@;
        out.push(cur);
        proof {
            assert(views(out@) =~= before.push(cv));
            assert(views(out@) =~= before + words_from(s@, i as int, cv));
        }
    } else {
        proof {
            assert(views(out@) =~= views(out@) + words_from(s@, i as int, cur@));
        }
    }
    out
}

/// The shell's help text.
pub open spec fn repl_help() -> Seq<char> {
    "Synapse REPL Shortcuts:\n"@ + "  .help                    Show this help message\n"@
        + "  .callers <symbol>        Find all callers of a symbol\n"@
        + "  .callees <symbol>        Find all callees of a symbol\n"@
        + "  .deps <file>             List dependencies for a file\n"@
        + "  .context <symbol/file>   Get code context (exact search)\n"@ + "  .exit / .quit            Exit the REPL\n"@
}

/// The views of a shell command.
pub open spec fn command_view(c: ReplCommand) -> (int, Seq<char>) {
    match c {
        ReplCommand::Nothing => (0, seq![]),
        ReplCommand::Exit => (1, seq![]),
        ReplCommand::Print(t) => (2, t@),
        ReplCommand::Callers(t) => (3, t@),
        ReplCommand::Callees(t) => (4, t@),
        ReplCommand::Deps(t) => (5, t@),
        ReplCommand::Context(t) => (6, t@),
        ReplCommand::Query(t) => (7, t@),
    }
}

/// What a shortcut with its words `ws` asks for: the target of a query
/// shortcut is the rest of its words joined by spaces.
pub open spec fn shortcut(ws: Seq<Seq<char>>) -> (int, Seq<char>) {
    let cmd = ws[0];
    let target = join(ws.skip(1), " "@);
    if cmd == ".exit"@ || cmd == ".quit"@ {
        (1, seq![])
    } else if cmd == ".help"@ {
        (2, repl_help())
    } else if cmd == ".callers"@ {
        if ws.len() < 2 { (2, "Error: Missing target symbol. Usage: .callers <symbol>\n"@) } else { (3, target) }
    } else if cmd == ".callees"@ {
        if ws.len() < 2 { (2, "Error: Missing target symbol. Usage: .callees <symbol>\n"@) } else { (4, target) }
    } else if cmd == ".deps"@ {
        if ws.len() < 2 { (2, "Error: Missing target file. Usage: .deps <file>\n"@) } else { (5, target) }
    } else if cmd == ".context"@ {
        if ws.len() < 2 { (2, "Error: Missing target. Usage: .context <symbol/file>\n"@) } else { (6, target) }
    } else {
        (2, "Error: Unknown shortcut command '"@ + cmd + "'. Type '.help' for commands.\n"@)
    }
}

/// What a typed line asks for: nothing when blank; a shortcut when the
/// trimmed line starts with `.`; otherwise a Cypher query of the trimmed
/// line.
pub open spec fn repl_meaning(line: Seq<char>) -> (int, Seq<char>) {
    let t = trim(line);
    if t.len() == 0 {
        (0, seq![])
    } else if starts_with(t, "."@) {
        let ws = words(t);
        if ws.len() == 0 {
            (0, seq![])
        } else {
            shortcut(ws)
        }
    } else {
        (7, t)
    }
}

fn target_of(ws: &Vec<Vec<char>>) -> (r: String)
    requires
        ws@.len() >= 1,
    ensures
        r@ == join(views(ws@).skip(1), " "@),
{
    let sp = to_chars(" ");
    let t = join_range(ws, 1, ws.len(), sp.as_slice());
    proof {
        assert(views(ws@).subrange(1, ws@.len() as int) =~= views(ws@).skip(1));
    }
    string_from_chars(t.as_slice())
}

/// What a typed line asks for.
pub fn repl_command(line: &str) -> (r: ReplCommand)
    ensures
        command_view(r) == repl_meaning(line@),
{
    let t = trim_str(line);
    if t.len() == 0 {
        return ReplCommand::Nothing;
    }
    let dot = to_chars(".");
    if !crate::text::starts_with_chars(t.as_slice(), dot.as_slice()) {
        return ReplCommand::Query(string_from_chars(t.as_slice()));
    }
    let ws = split_words(t.as_slice());
    if ws.len() == 0 {
        return ReplCommand::Nothing;
    }
    let cmd = string_from_chars(ws[0].as_slice());
    proof {
        assert(views(ws@)[0] == ws@[0]@);
    }
    let c = cmd.as_str();
    if crate::text::str_eq(c, ".exit") || crate::text::str_eq(c, ".quit") {
        ReplCommand::Exit
    } else if crate::text::str_eq(c, ".help") {
        let mut h = to_chars("Synapse REPL Shortcuts:\n");
        crate::text::push_str(&mut h, "  .help                    Show this help message\n");
        crate::text::push_str(&mut h, "  .callers <symbol>        Find all callers of a symbol\n");
        crate::text::push_str(&mut h, "  .callees <symbol>        Find all callees of a symbol\n");
        crate::text::push_str(&mut h, "  .deps <file>             List dependencies for a file\n");
        crate::text::push_str(&mut h, "  .context <symbol/file>   Get code context (exact search)\n");
        crate::text::push_str(&mut h, "  .exit / .quit            Exit the REPL\n");
        proof {
            assert(h@ =~= repl_help());
        }
        ReplCommand::Print(string_from_chars(h.as_slice()))
    } else if crate::text::str_eq(c, ".callers") {
        if ws.len() < 2 {
            ReplCommand::Print(crate::text::owned("Error: Missing target symbol. Usage: .callers <symbol>\n"))
        } else {
            ReplCommand::Callers(target_of(&ws))
        }
    } else if crate::text::str_eq(c, ".callees") {
        if ws.len() < 2 {
            ReplCommand::Print(crate::text::owned("Error: Missing target symbol. Usage: .callees <symbol>\n"))
        } else {
            ReplCommand::Callees(target_of(&ws))
        }
    } else if crate::text::str_eq(c, ".deps") {
        if ws.len() < 2 {
            ReplCommand::Print(crate::text::owned("Error: Missing target file. Usage: .deps <file>\n"))
        } else {
            ReplCommand::Deps(target_of(&ws))
        }
    } else if crate::text::str_eq(c, ".context") {
        if ws.len() < 2 {
            ReplCommand::Print(crate::text::owned("Error: Missing target. Usage: .context <symbol/file>\n"))
        } else {
            ReplCommand::Context(target_of(&ws))
        }
    } else {
        let mut m = to_chars("Error: Unknown shortcut command '");
        crate::text::push_str(&mut m, c);
        crate::text::push_str(&mut m, "'. Type '.help' for commands.\n");
        ReplCommand::Print(string_from_chars(m.as_slice()))
    }
}

} // verus!
