//! Commands typed in the status bar (`:e`, `:w`, `:q`, `:wq`, `:sp`,
//! `:plug start|stop <name>`) and the actions they stand for.

use vstd::prelude::*;

use crate::rpc::{Action, PluginAction, PluginId};
use crate::utf16::str_eq;

verus! {

/// The pieces a text splits into at its spaces, built character by
/// character: a space starts a new piece, any other character extends the
/// last one.
pub open spec fn split_at_spaces_spec(text: Seq<char>) -> Seq<Seq<char>>
    decreases text.len(),
{
    if text.len() == 0 {
        seq![Seq::empty()]
    } else {
        let rest = split_at_spaces_spec(text.drop_last());
        if text.last() == ' ' {
            rest.push(Seq::empty())
        } else {
            rest.update(rest.len() - 1, rest.last().push(text.last()))
        }
    }
}

/// Pieces joined back together with a space between each two.
pub open spec fn join_with_spaces(pieces: Seq<Seq<char>>) -> Seq<char>
    decreases pieces.len(),
{
    if pieces.len() == 0 {
        Seq::empty()
    } else if pieces.len() == 1 {
        pieces[0]
    } else {
        join_with_spaces(pieces.drop_last()) + seq![' '] + pieces.last()
    }
}

/// The text held by an optional string.
pub open spec fn opt_text(s: Option<String>) -> Option<Seq<char>> {
    match s {
        Some(x) => Some(x@),
        None => None,
    }
}

proof fn lemma_split_nonempty(text: Seq<char>)
    ensures
        split_at_spaces_spec(text).len() >= 1,
    decreases text.len(),
{
    if text.len() > 0 {
        lemma_split_nonempty(text.drop_last());
    }
}

/// Splitting at spaces and joining the pieces with spaces gives the text
/// back, and no piece holds a space.
pub proof fn law_split_join_roundtrip(text: Seq<char>)
    ensures
        split_at_spaces_spec(text).len() >= 1,
        join_with_spaces(split_at_spaces_spec(text)) == text,
        forall|i: int|
            0 <= i < split_at_spaces_spec(text).len() ==> !(#[trigger] split_at_spaces_spec(
                text,
            )[i]).contains(' '),
    decreases text.len(),
{
    lemma_split_nonempty(text);
    if text.len() > 0 {
        let t = text.drop_last();
        let c = text.last();
        let rest = split_at_spaces_spec(t);
        law_split_join_roundtrip(t);
        lemma_split_nonempty(t);
        if c == ' ' {
            let p = rest.push(Seq::<char>::empty());
            assert(p.drop_last() =~= rest);
            if rest.len() == 1 {
                assert(join_with_spaces(rest) == rest[0]);
            }
            assert(join_with_spaces(p) =~= text);
            assert forall|i: int| 0 <= i < p.len() implies !(#[trigger] p[i]).contains(' ') by {
                if i < rest.len() {
                    assert(p[i] == rest[i]);
                }
            }
        } else {
            let p = rest.update(rest.len() - 1, rest.last().push(c));
            assert(p.drop_last() =~= rest.drop_last());
            assert(text =~= t.push(c));
            if rest.len() == 1 {
                assert(join_with_spaces(rest) == rest[0]);
                assert(p =~= seq![rest[0].push(c)]);
                assert(join_with_spaces(p) =~= text);
            } else {
                assert(join_with_spaces(rest) == join_with_spaces(rest.drop_last()) + seq![' '] + rest.last());
                assert(join_with_spaces(p) =~= text);
            }
            assert forall|i: int| 0 <= i < p.len() implies !(#[trigger] p[i]).contains(' ') by {
                if i < rest.len() - 1 {
                    assert(p[i] == rest[i]);
                } else {
                    let q = rest.last();
                    assert(!rest[rest.len() - 1].contains(' '));
                    if q.push(c).contains(' ') {
                        let k = choose|k: int| 0 <= k < q.push(c).len() && q.push(c)[k] == ' ';
                        assert(q[k] == ' ');
                    }
                }
            }
        }
    }
}

/// Splits a command at every space.
pub fn split_at_spaces(text: &str) -> (args: Vec<String>)
    ensures
        args@.map_values(|a: String| a@) == split_at_spaces_spec(text@),
{
    let n = text.unicode_len();
    let mut args: Vec<String> = Vec::new();
    let mut start: usize = 0;
    let mut i: usize = 0;
    assert(text@.take(0) =~= Seq::<char>::empty());
    assert(args@.map_values(|a: String| a@).push(text@.subrange(0, 0)) =~= seq![Seq::<char>::empty()]);
    while i < n
        invariant
            n == text@.len(),
            start <= i <= n,
            args@.map_values(|a: String| a@).push(text@.subrange(start as int, i as int))
                == split_at_spaces_spec(text@.take(i as int)),
        decreases n - i,
    {
        let c = text.get_char(i);
        let ghost views = args@.map_values(|a: String| a@);
        let ghost cur = text@.subrange(start as int, i as int);
        proof {
            assert(text@.take(i + 1).drop_last() =~= text@.take(i as int));
            assert(text@.take(i + 1).last() == c);
        }
        if c == ' ' {
            let piece = String::from_str(text.substring_char(start, i));
            args.push(piece);
            proof {
                assert(args@.map_values(|a: String| a@) =~= views.push(cur));
                assert(text@.subrange(i + 1, i + 1) =~= Seq::<char>::empty());
            }
            start = i + 1;
            assert(args@.map_values(|a: String| a@).push(text@.subrange(start as int, i + 1))
                =~= split_at_spaces_spec(text@.take(i + 1)));
        } else {
            assert(text@.subrange(start as int, i + 1) =~= cur.push(c));
            assert(args@.map_values(|a: String| a@).push(text@.subrange(start as int, i + 1))
                =~= split_at_spaces_spec(text@.take(i + 1)));
        }
        i += 1;
    }
    let ghost views = args@.map_values(|a: String| a@);
    let ghost cur = text@.subrange(start as int, n as int);
    let last = String::from_str(text.substring_char(start, n));
    args.push(last);
    assert(args@.map_values(|a: String| a@) =~= views.push(cur));
    assert(text@.take(n as int) =~= text@);
    args
}

/// What a command stands for.
pub enum CommandAction {
    Open(Option<Seq<char>>),
    Save(Option<Seq<char>>),
    Close,
    Split(Option<Seq<char>>),
    PluginStart(Seq<char>),
    PluginStop(Seq<char>),
}

/// The action an action of the frontend is, among those commands stand for.
pub open spec fn command_action_of(a: Action) -> Option<CommandAction> {
    match a {
        Action::Open(f) => Some(CommandAction::Open(opt_text(f))),
        Action::Save(f) => Some(CommandAction::Save(opt_text(f))),
        Action::Close => Some(CommandAction::Close),
        Action::Split(f) => Some(CommandAction::Split(opt_text(f))),
        Action::Plugin(PluginAction::Start(id)) => Some(CommandAction::PluginStart(id@)),
        Action::Plugin(PluginAction::Stop(id)) => Some(CommandAction::PluginStop(id@)),
        _ => None,
    }
}

/// The file a command names: its first argument, else the view's file.
pub open spec fn command_file(args: Seq<Seq<char>>, filepath: Option<Seq<char>>) -> Option<Seq<char>> {
    if args.len() > 1 {
        Some(args[1])
    } else {
        filepath
    }
}

/// The actions a command split into `args` stands for.
pub open spec fn command_actions(args: Seq<Seq<char>>, filepath: Option<Seq<char>>) -> Seq<CommandAction> {
    let name = args[0];
    let file = command_file(args, filepath);
    if name == "e"@ {
        seq![CommandAction::Open(file)]
    } else if name == "w"@ {
        seq![CommandAction::Save(file)]
    } else if name == "q"@ {
        seq![CommandAction::Close]
    } else if name == "wq"@ {
        seq![CommandAction::Save(file), CommandAction::Close]
    } else if name == "sp"@ {
        seq![CommandAction::Split(file)]
    } else if name == "plug"@ {
        if args.len() < 3 {
            Seq::empty()
        } else if args[1] == "start"@ {
            seq![CommandAction::PluginStart(args[2])]
        } else if args[1] == "stop"@ {
            seq![CommandAction::PluginStop(args[2])]
        } else {
            Seq::empty()
        }
    } else {
        Seq::empty()
    }
}

proof fn lemma_split_append(p: Seq<char>, a: Seq<char>)
    requires
        !a.contains(' '),
    ensures
        split_at_spaces_spec(p + seq![' '] + a) == split_at_spaces_spec(p).push(a),
    decreases a.len(),
{
    if a.len() == 0 {
        assert((p + seq![' '] + a).drop_last() =~= p);
        assert(p + seq![' '] + a =~= p.push(' '));
        assert(a =~= Seq::<char>::empty());
    } else {
        let a0 = a.drop_last();
        let c = a.last();
        assert(!a0.contains(' ')) by {
            if a0.contains(' ') {
                let k = choose|k: int| 0 <= k < a0.len() && a0[k] == ' ';
                assert(a[k] == ' ');
            }
        }
        assert(c != ' ') by {
            assert(a[a.len() - 1] == c);
        }
        lemma_split_append(p, a0);
        assert(a0.push(c) =~= a);
        assert((p + seq![' '] + a).drop_last() =~= p + seq![' '] + a0);
        assert((p + seq![' '] + a).last() == c);
        let rest = split_at_spaces_spec(p).push(a0);
        assert(rest.last() == a0);
        assert(rest.update(rest.len() - 1, rest.last().push(c)) =~= split_at_spaces_spec(p).push(a));
    }
}

/// A file command uses the file it names, whatever file the view holds:
/// with an argument, `e`, `w` and `sp` open, save and split that file, and
/// `wq` saves it and closes; without one they use the view's file.
pub proof fn law_file_commands_use_their_argument(
    args: Seq<Seq<char>>,
    filepath: Option<Seq<char>>,
    other: Option<Seq<char>>,
)
    requires
        args.len() >= 1,
    ensures
        args.len() > 1 ==> command_actions(args, filepath) == command_actions(args, other),
        args.len() > 1 && args[0] == "e"@ ==> command_actions(args, filepath) == seq![
            CommandAction::Open(Some(args[1])),
        ],
        args.len() > 1 && args[0] == "w"@ ==> command_actions(args, filepath) == seq![
            CommandAction::Save(Some(args[1])),
        ],
        args.len() > 1 && args[0] == "wq"@ ==> command_actions(args, filepath) == seq![
            CommandAction::Save(Some(args[1])),
            CommandAction::Close,
        ],
        args.len() > 1 && args[0] == "sp"@ ==> command_actions(args, filepath) == seq![
            CommandAction::Split(Some(args[1])),
        ],
        args.len() == 1 && args[0] == "w"@ ==> command_actions(args, filepath) == seq![
            CommandAction::Save(filepath),
        ],
{
    reveal_strlit("e");
    reveal_strlit("w");
    reveal_strlit("q");
    reveal_strlit("wq");
    reveal_strlit("sp");
    reveal_strlit("plug");
    let n = args[0];
    if n == "w"@ {
        assert(n != "e"@) by { assert(n[0] != "e"@[0]); }
    }
    if n == "wq"@ {
        assert(n != "e"@ && n != "w"@ && n != "q"@) by { assert(n.len() == 2); }
    }
    if n == "sp"@ {
        assert(n != "e"@ && n != "w"@ && n != "q"@ && n != "wq"@) by {
            assert(n.len() == 2);
            assert(n[0] != "wq"@[0]);
        }
    }
}

/// Typing `w` and a file name (with no space in it) saves to that file.
pub proof fn law_write_saves_named_file(file: Seq<char>, filepath: Option<Seq<char>>)
    requires
        !file.contains(' '),
    ensures
        command_actions(split_at_spaces_spec("w"@ + seq![' '] + file), filepath) == seq![
            CommandAction::Save(Some(file)),
        ],
{
    reveal_strlit("w");
    let w = "w"@;
    assert(w =~= seq!['w']);
    assert(split_at_spaces_spec(Seq::<char>::empty()) == seq![Seq::<char>::empty()]);
    assert(w.drop_last() =~= Seq::<char>::empty());
    assert(w.last() == 'w');
    assert(Seq::<char>::empty().push('w') =~= w);
    assert(split_at_spaces_spec(w) =~= seq![w]);
    lemma_split_append(w, file);
    let args = split_at_spaces_spec(w + seq![' '] + file);
    assert(args =~= seq![w, file]);
    assert(args[0] == "w"@ && args[1] == file);
    law_file_commands_use_their_argument(args, filepath, None);
}

/// The actions the command typed as `command_text` stands for; `filepath`
/// is the file of the view the command is typed in.
pub fn command_to_actions(filepath: Option<String>, command_text: String) -> (actions: Vec<Action>)
    ensures
        actions@.len() == command_actions(
            split_at_spaces_spec(command_text@),
            opt_text(filepath),
        ).len(),
        forall|i: int|
            0 <= i < actions@.len() ==> command_action_of(#[trigger] actions@[i]) == Some(
                command_actions(split_at_spaces_spec(command_text@), opt_text(filepath))[i],
            ),
{
    let mut actions: Vec<Action> = Vec::new();
    let args = split_at_spaces(command_text.as_str());
    proof {
        lemma_split_nonempty(command_text@);
    }
    let ghost av = args@.map_values(|a: String| a@);
    let filename = if args.len() > 1 {
        Some(args[1].clone())
    } else {
        filepath
    };
    let name = args[0].as_str();
    if str_eq(name, "e") {
        actions.push(Action::Open(filename));
    } else if str_eq(name, "w") {
        actions.push(Action::Save(filename));
    } else if str_eq(name, "q") {
        actions.push(Action::Close);
    } else if str_eq(name, "wq") {
        actions.push(Action::Save(filename));
        actions.push(Action::Close);
    } else if str_eq(name, "sp") {
        actions.push(Action::Split(filename));
    } else if str_eq(name, "plug") {
        if args.len() >= 3 {
            let plugin_id: PluginId = args[2].clone();
            let sub = args[1].as_str();
            if str_eq(sub, "start") {
                actions.push(Action::Plugin(PluginAction::Start(plugin_id)));
            } else if str_eq(sub, "stop") {
                actions.push(Action::Plugin(PluginAction::Stop(plugin_id)));
            }
        }
    }
    actions
}

} // verus!
