//! Command lines.

use crate::text::{copy_words, words};
use vstd::prelude::*;

verus! {

/// A program and its arguments.
#[derive(Debug)]
pub struct CommandLine {
    pub program: String,
    pub args: Vec<String>,
}

/// What a command line holds.
pub struct CommandLineView {
    pub program: Seq<char>,
    pub args: Seq<Seq<char>>,
}

impl View for CommandLine {
    type V = CommandLineView;

    open spec fn view(&self) -> CommandLineView {
        CommandLineView { program: self.program@, args: words(self.args@) }
    }
}

impl CommandLineView {
    /// The program and the arguments, one after the other.
    pub open spec fn all(self) -> Seq<Seq<char>> {
        seq![self.program] + self.args
    }
}

/// The command that runs a list of words, the first of which is the program; with `use_sudo`
/// by way of `sudo`.
pub open spec fn direct(use_sudo: bool, list: Seq<Seq<char>>) -> CommandLineView {
    if use_sudo {
        CommandLineView { program: "sudo"@, args: list }
    } else {
        CommandLineView { program: list[0], args: list.skip(1) }
    }
}

/// The command that runs a list of words, the first of which is the program.
pub fn to_direct(use_sudo: bool, list: &[String]) -> (command: CommandLine)
    requires
        list@.len() > 0,
    ensures
        command@ == direct(use_sudo, words(list@)),
{
    if use_sudo {
        CommandLine { program: "sudo".to_owned(), args: copy_words(list) }
    } else {
        let mut args: Vec<String> = Vec::new();
        let mut i: usize = 1;
        assert(words(args@) =~= words(list@).subrange(1, 1));
        while i < list.len()
            invariant
                1 <= i <= list.len(),
                words(args@) == words(list@).subrange(1, i as int),
            decreases list.len() - i,
        {
            crate::text::push_word(&mut args, list[i].as_str());
            assert(words(list@).subrange(1, i + 1) =~= words(list@).subrange(1, i as int).push(
                list@[i as int]@,
            ));
            i = i + 1;
        }
        assert(words(list@).subrange(1, i as int) =~= words(list@).skip(1));
        CommandLine { program: list[0].clone(), args }
    }
}

/// With `sudo` or without, the same words are run: `sudo` only stands before them.
pub proof fn law_sudo_only_precedes(list: Seq<Seq<char>>)
    requires
        list.len() > 0,
    ensures
        direct(false, list).all() == list,
        direct(true, list).all() == seq!["sudo"@] + list,
{
    assert(seq![list[0]] + list.skip(1) =~= list);
}

/// The words that a command runs: its arguments where it is `sudo` that runs them, else its program
/// and its arguments.
pub open spec fn words_run(command: CommandLine, use_sudo: bool) -> Seq<Seq<char>> {
    if use_sudo {
        Seq::new(command.args@.len(), |i: int| command.args@[i]@)
    } else {
        Seq::new(
            command.args@.len() + 1,
            |i: int|
                if i == 0 {
                    command.program@
                } else {
                    command.args@[i - 1]@
                },
        )
    }
}

/// A command runs the very words that it was made of, whether or not by way of `sudo`.
pub proof fn law_command_runs_its_words(use_sudo: bool, list: &[String], command: CommandLine)
    requires
        list@.len() > 0,
        call_ensures(to_direct, (use_sudo, list), command),
    ensures
        words_run(command, use_sudo).len() == list@.len(),
        forall|i: int|
            0 <= i < list@.len() ==> #[trigger] words_run(command, use_sudo)[i] == list@[i]@,
        use_sudo ==> command.program@ == "sudo"@,
{
    lemma_direct_runs(command, use_sudo, words(list@));
    assert forall|i: int| 0 <= i < list@.len() implies #[trigger] words_run(command, use_sudo)[i]
        == list@[i]@ by {
        assert(words(list@)[i] == list@[i]@);
    }
}

/// A command that holds what [`direct`] says runs the list.
pub proof fn lemma_direct_runs(command: CommandLine, use_sudo: bool, list: Seq<Seq<char>>)
    requires
        list.len() > 0,
        command@ == direct(use_sudo, list),
    ensures
        words_run(command, use_sudo) == list,
        use_sudo ==> command.program@ == "sudo"@,
{
    assert(command.program@ == command@.program);
    let args = words(command.args@);
    assert(args == command@.args);
    assert(args.len() == command.args@.len());
    let run = words_run(command, use_sudo);
    assert(run.len() == list.len());
    assert forall|i: int| 0 <= i < list.len() implies run[i] == list[i] by {
        if use_sudo {
            assert(args[i] == command.args@[i]@);
        } else if i > 0 {
            assert(args[i - 1] == command.args@[i - 1]@);
            assert(list.skip(1)[i - 1] == list[i]);
        }
    }
    assert(run =~= list);
}

} // verus!
