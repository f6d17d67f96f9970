//! Log lines that pass on what a child process printed.

use crate::text::{characters, lemma_words_push, words};
use vstd::prelude::*;

verus! {

/// Label of what `make` prints.
pub const MAKE_LABEL: &'static str = "[MAKE]";

/// Label of what a reth node prints.
pub const RETH_LABEL: &'static str = "[RETH]";

/// Label of what the reth unwind command prints.
pub const RETH_UNWIND_LABEL: &'static str = "[RETH-UNWIND]";

/// Whether a character has the Unicode property `White_Space`.
pub open spec fn is_white_space(c: char) -> bool {
    ||| '\u{9}' <= c <= '\u{d}'
    ||| c == '\u{20}'
    ||| c == '\u{85}'
    ||| c == '\u{a0}'
    ||| c == '\u{1680}'
    ||| '\u{2000}' <= c <= '\u{200a}'
    ||| c == '\u{2028}'
    ||| c == '\u{2029}'
    ||| c == '\u{202f}'
    ||| c == '\u{205f}'
    ||| c == '\u{3000}'
}

/// Whether a line holds nothing but white space.
pub open spec fn is_blank(line: Seq<char>) -> bool {
    forall|i: int| 0 <= i < line.len() ==> is_white_space(#[trigger] line[i])
}

/// A line without the carriage return that stood before its line feed.
pub open spec fn without_return(line: Seq<char>) -> Seq<char> {
    if line.len() > 0 && line.last() == '\r' {
        line.drop_last()
    } else {
        line
    }
}

/// Whether the first line feed of `text` stands at `at`.
pub open spec fn first_feed_at(text: Seq<char>, at: int) -> bool {
    &&& 0 <= at < text.len()
    &&& text[at] == '\n'
    &&& forall|i: int| 0 <= i < at ==> text[i] != '\n'
}

/// The lines of a text. A line ends with a line feed, which may follow a carriage return and
/// belongs to no line; at the end of the text the line feed may be left out.
pub open spec fn lines(text: Seq<char>) -> Seq<Seq<char>>
    decreases text.len(),
{
    if text.len() == 0 {
        seq![]
    } else if exists|at: int| first_feed_at(text, at) {
        let at = choose|at: int| first_feed_at(text, at);
        seq![without_return(text.take(at))] + lines(text.skip(at + 1))
    } else {
        seq![text]
    }
}

/// One log line: the label, a space, the line.
pub open spec fn labelled(label: Seq<char>, line: Seq<char>) -> Seq<char> {
    label + " "@ + line
}

/// The log lines for what a process printed: each line that is not blank, behind the label.
pub open spec fn labelled_lines(label: Seq<char>, printed: Seq<Seq<char>>) -> Seq<Seq<char>>
    decreases printed.len(),
{
    if printed.len() == 0 {
        seq![]
    } else {
        let before = labelled_lines(label, printed.drop_last());
        if is_blank(printed.last()) {
            before
        } else {
            before.push(labelled(label, printed.last()))
        }
    }
}

fn white_space(c: char) -> (white: bool)
    ensures
        white == is_white_space(c),
{
    ('\u{9}' <= c && c <= '\u{d}') || c == '\u{20}' || c == '\u{85}' || c == '\u{a0}' || c
        == '\u{1680}' || ('\u{2000}' <= c && c <= '\u{200a}') || c == '\u{2028}' || c == '\u{2029}'
        || c == '\u{202f}' || c == '\u{205f}' || c == '\u{3000}'
}

/// Whether a line holds nothing but white space.
pub fn blank(line: &str) -> (is: bool)
    ensures
        is == is_blank(line@),
{
    let all = characters(line);
    let mut i: usize = 0;
    while i < all.len()
        invariant
            all@ == line@,
            i <= all.len(),
            forall|k: int| 0 <= k < i ==> is_white_space(#[trigger] line@[k]),
        decreases all.len() - i,
    {
        if !white_space(all[i]) {
            assert(!is_white_space(line@[i as int]));
            return false;
        }
        i = i + 1;
    }
    true
}

proof fn lemma_lines_at_feed(text: Seq<char>, at: int)
    requires
        first_feed_at(text, at),
    ensures
        lines(text) == seq![without_return(text.take(at))] + lines(text.skip(at + 1)),
{
    let chosen = choose|k: int| first_feed_at(text, k);
    assert(first_feed_at(text, chosen));
    assert(chosen == at);
}

/// The lines of a text.
pub fn split_lines(text: &str) -> (list: Vec<String>)
    ensures
        words(list@) == lines(text@),
{
    let all = characters(text);
    let mut list: Vec<String> = Vec::new();
    let mut start: usize = 0;
    let mut i: usize = 0;
    assert(text@.skip(0) =~= text@);
    assert(words(list@) + lines(text@) =~= lines(text@));
    while i < all.len()
        invariant
            all@ == text@,
            start <= i <= all.len(),
            forall|k: int| start <= k < i ==> text@[k] != '\n',
            lines(text@) == words(list@) + lines(text@.skip(start as int)),
        decreases all.len() - i,
    {
        if all[i] == '\n' {
            let ghost rest = text@.skip(start as int);
            let ghost line = without_return(rest.take(i - start));
            proof {
                assert(first_feed_at(rest, i - start));
                lemma_lines_at_feed(rest, i - start);
                assert(rest.skip(i - start + 1) =~= text@.skip(i + 1));
            }
            let end: usize = if start < i && all[i - 1] == '\r' {
                i - 1
            } else {
                i
            };
            let owned = text.substring_char(start, end).to_owned();
            assert(owned@ =~= line);
            let ghost before = words(list@);
            proof {
                lemma_words_push(list@, owned);
                assert(before + (seq![line] + lines(text@.skip(i + 1))) =~= before.push(line)
                    + lines(text@.skip(i + 1)));
            }
            list.push(owned);
            start = i + 1;
        }
        i = i + 1;
    }
    let ghost rest = text@.skip(start as int);
    if start < all.len() {
        let owned = text.substring_char(start, all.len()).to_owned();
        assert(owned@ =~= rest);
        assert(forall|at: int| 0 <= at < rest.len() ==> rest[at] != '\n');
        assert(lines(rest) == seq![rest]);
        proof {
            lemma_words_push(list@, owned);
            assert(words(list@) + seq![rest] =~= words(list@).push(rest));
        }
        list.push(owned);
    } else {
        assert(lines(rest) =~= seq![]);
        assert(words(list@) + Seq::<Seq<char>>::empty() =~= words(list@));
    }
    list
}

/// One log line: the label, a space, the line.
pub fn log_line(label: &str, line: &str) -> (entry: String)
    ensures
        entry@ == labelled(label@, line@),
{
    label.to_owned().concat(" ").concat(line)
}

/// The log lines for what a process printed: each line that is not blank, behind the label.
pub fn log_lines(label: &str, printed: &str) -> (entries: Vec<String>)
    ensures
        words(entries@) == labelled_lines(label@, lines(printed@)),
{
    let list = split_lines(printed);
    let mut entries: Vec<String> = Vec::new();
    let mut i: usize = 0;
    assert(words(entries@) =~= labelled_lines(label@, words(list@).take(0)));
    while i < list.len()
        invariant
            i <= list.len(),
            words(entries@) == labelled_lines(label@, words(list@).take(i as int)),
        decreases list.len() - i,
    {
        assert(words(list@).take(i + 1).drop_last() =~= words(list@).take(i as int));
        assert(words(list@).take(i + 1).last() == list@[i as int]@);
        if !blank(list[i].as_str()) {
            let entry = log_line(label, list[i].as_str());
            proof {
                lemma_words_push(entries@, entry);
            }
            entries.push(entry);
        }
        i = i + 1;
    }
    assert(words(list@).take(i as int) =~= words(list@));
    entries
}

/// No line holds a line feed.
pub proof fn law_lines_hold_no_feed(text: Seq<char>)
    ensures
        forall|i: int| 0 <= i < lines(text).len() ==> !(#[trigger] lines(text)[i]).contains('\n'),
    decreases text.len(),
{
    if text.len() > 0 {
        if exists|at: int| first_feed_at(text, at) {
            let at = choose|at: int| first_feed_at(text, at);
            law_lines_hold_no_feed(text.skip(at + 1));
            let line = without_return(text.take(at));
            assert forall|i: int| 0 <= i < lines(text).len() implies !(
            #[trigger] lines(text)[i]).contains('\n') by {
                if i > 0 {
                    assert(lines(text)[i] == lines(text.skip(at + 1))[i - 1]);
                } else {
                    assert(lines(text)[0] == line);
                    assert(forall|k: int| 0 <= k < line.len() ==> line[k] == text[k]);
                }
            }
        } else {
            lemma_no_first_feed(text, 0);
        }
    }
}

/// Where no position holds the first line feed, none holds any.
proof fn lemma_no_first_feed(text: Seq<char>, from: int)
    requires
        0 <= from <= text.len(),
        forall|i: int| 0 <= i < from ==> text[i] != '\n',
        !exists|at: int| first_feed_at(text, at),
    ensures
        !text.contains('\n'),
    decreases text.len() - from,
{
    if from < text.len() {
        assert(!first_feed_at(text, from));
        lemma_no_first_feed(text, from + 1);
    }
}

/// Whether an entry is the log line for one of the lines that are not blank.
pub open spec fn logs_line(
    entry: Seq<char>,
    label: Seq<char>,
    printed: Seq<Seq<char>>,
    k: int,
) -> bool {
    0 <= k < printed.len() && !is_blank(printed[k]) && entry == labelled(label, printed[k])
}

/// What is logged of a process is what it printed: each entry is a line that is not blank, behind
/// the label, and each such line has an entry.
pub proof fn law_log_holds_nonblank_lines(label: Seq<char>, printed: Seq<Seq<char>>)
    ensures
        forall|entry: Seq<char>| #[trigger]
            labelled_lines(label, printed).contains(entry) <==> exists|k: int|
                logs_line(entry, label, printed, k),
    decreases printed.len(),
{
    if printed.len() > 0 {
        let before = printed.drop_last();
        let all = labelled_lines(label, printed);
        let some = labelled_lines(label, before);
        law_log_holds_nonblank_lines(label, before);
        assert forall|entry: Seq<char>| #[trigger] all.contains(entry) <==> exists|k: int|
            logs_line(entry, label, printed, k) by {
            if all.contains(entry) {
                let i = choose|i: int| 0 <= i < all.len() && all[i] == entry;
                if i < some.len() {
                    assert(some[i] == entry);
                    assert(some.contains(entry));
                    let k = choose|k: int| logs_line(entry, label, before, k);
                    assert(logs_line(entry, label, printed, k));
                } else {
                    assert(logs_line(entry, label, printed, printed.len() - 1));
                }
            }
            if exists|k: int| logs_line(entry, label, printed, k) {
                let k = choose|k: int| logs_line(entry, label, printed, k);
                if k < before.len() {
                    assert(logs_line(entry, label, before, k));
                    assert(some.contains(entry));
                    let i = choose|i: int| 0 <= i < some.len() && some[i] == entry;
                    assert(all[i] == entry);
                } else {
                    assert(all[all.len() - 1] == entry);
                }
            }
        }
    }
}

/// The characters that Unicode counts as white space: there are twenty-five.
pub proof fn law_white_space_is_unicode(c: char)
    ensures
        is_white_space(c) <==> seq![
            '\u{9}', '\u{a}', '\u{b}', '\u{c}', '\u{d}', '\u{20}', '\u{85}', '\u{a0}', '\u{1680}',
            '\u{2000}', '\u{2001}', '\u{2002}', '\u{2003}', '\u{2004}', '\u{2005}', '\u{2006}',
            '\u{2007}', '\u{2008}', '\u{2009}', '\u{200a}', '\u{2028}', '\u{2029}', '\u{202f}',
            '\u{205f}', '\u{3000}',
        ].contains(c),
{
    let all = seq![
        '\u{9}', '\u{a}', '\u{b}', '\u{c}', '\u{d}', '\u{20}', '\u{85}', '\u{a0}', '\u{1680}',
        '\u{2000}', '\u{2001}', '\u{2002}', '\u{2003}', '\u{2004}', '\u{2005}', '\u{2006}',
        '\u{2007}', '\u{2008}', '\u{2009}', '\u{200a}', '\u{2028}', '\u{2029}', '\u{202f}',
        '\u{205f}', '\u{3000}',
    ];
    if is_white_space(c) {
        let i: int = if c <= '\u{d}' {
            c as int - 9
        } else if c == '\u{20}' {
            5
        } else if c == '\u{85}' {
            6
        } else if c == '\u{a0}' {
            7
        } else if c == '\u{1680}' {
            8
        } else if c <= '\u{200a}' {
            c as int - 0x2000 + 9
        } else if c == '\u{2028}' {
            20
        } else if c == '\u{2029}' {
            21
        } else if c == '\u{202f}' {
            22
        } else if c == '\u{205f}' {
            23
        } else {
            24
        };
        assert(0 <= i < 25);
        assert(all[i] == c);
    }
}

/// A line is blank exactly when no character of it is anything but white space.
pub proof fn law_blank_line_is_white(line: &str, is: bool)
    requires
        call_ensures(blank, (line,), is),
    ensures
        is <==> forall|i: int| 0 <= i < line@.len() ==> is_white_space(#[trigger] line@[i]),
{
}

/// What holds no line feed is one line, or none where it is empty.
pub proof fn law_text_without_feed_is_one_line(text: Seq<char>)
    requires
        !text.contains('\n'),
    ensures
        text.len() == 0 ==> lines(text).len() == 0,
        text.len() > 0 ==> lines(text) == seq![text],
{
    if exists|at: int| first_feed_at(text, at) {
        let at = choose|at: int| first_feed_at(text, at);
        assert(text.contains(text[at]));
    }
}

/// What stands before the first line feed is the first line, without a carriage return at its
/// end; the other lines are those of what follows.
pub proof fn law_feed_ends_line(line: Seq<char>, rest: Seq<char>)
    requires
        !line.contains('\n'),
    ensures
        line.len() > 0 && line.last() == '\r' ==> lines(line + seq!['\n'] + rest) == seq![
            line.drop_last(),
        ] + lines(rest),
        !(line.len() > 0 && line.last() == '\r') ==> lines(line + seq!['\n'] + rest) == seq![line]
            + lines(rest),
{
    let text = line + seq!['\n'] + rest;
    let at = line.len() as int;
    assert(text[at] == '\n');
    assert forall|i: int| 0 <= i < at implies text[i] != '\n' by {
        assert(text[i] == line[i]);
        assert(line.contains(line[i]));
    }
    assert(first_feed_at(text, at));
    lemma_lines_at_feed(text, at);
    assert(text.take(at) =~= line);
    assert(text.skip(at + 1) =~= rest);
}

/// The log of one line is the line behind the label and a space, or nothing where the line is
/// blank.
pub proof fn law_log_of_one_line(label: Seq<char>, line: Seq<char>)
    ensures
        (forall|i: int| 0 <= i < line.len() ==> is_white_space(#[trigger] line[i])) ==>
            labelled_lines(label, seq![line]).len() == 0,
        !(forall|i: int| 0 <= i < line.len() ==> is_white_space(#[trigger] line[i])) ==>
            labelled_lines(label, seq![line]) == seq![label + seq![' '] + line],
{
    reveal_strlit(" ");
    assert(" "@ =~= seq![' ']);
    assert(seq![line].drop_last() =~= seq![]);
    assert(seq![line].last() == line);
    assert(labelled_lines(label, seq![line].drop_last()).len() == 0);
    assert(Seq::<Seq<char>>::empty().push(labelled(label, line)) =~= seq![labelled(label, line)]);
    assert(labelled_lines(label, seq![line].drop_last()) =~= Seq::<Seq<char>>::empty());
}

/// The log of some lines and then others is the log of the first and then that of the others:
/// nothing is lost, doubled or moved.
pub proof fn law_log_keeps_order(label: Seq<char>, a: Seq<Seq<char>>, b: Seq<Seq<char>>)
    ensures
        labelled_lines(label, a + b) == labelled_lines(label, a) + labelled_lines(label, b),
    decreases b.len(),
{
    if b.len() == 0 {
        assert(a + b =~= a);
        assert(labelled_lines(label, b).len() == 0);
        assert(labelled_lines(label, a) + labelled_lines(label, b) =~= labelled_lines(label, a));
    } else {
        law_log_keeps_order(label, a, b.drop_last());
        assert((a + b).drop_last() =~= a + b.drop_last());
        assert((a + b).last() == b.last());
        assert(labelled_lines(label, a + b) =~= labelled_lines(label, a) + labelled_lines(label, b));
    }
}

/// What is logged of a text is the log of its lines, one entry after the other.
pub proof fn law_logged_entries(label: &str, printed: &str, entries: Vec<String>)
    requires
        call_ensures(log_lines, (label, printed), entries),
    ensures
        entries@.len() == labelled_lines(label@, lines(printed@)).len(),
        forall|i: int|
            0 <= i < entries@.len() ==> (#[trigger] entries@[i])@ == labelled_lines(
                label@,
                lines(printed@),
            )[i],
{
    assert(words(entries@).len() == entries@.len());
    assert forall|i: int| 0 <= i < entries@.len() implies (#[trigger] entries@[i])@
        == labelled_lines(label@, lines(printed@))[i] by {
        assert(words(entries@)[i] == entries@[i]@);
    }
}

/// One log line is the label, a space and the line; a text is split into its lines.
pub proof fn law_log_line_and_split(label: &str, line: &str, entry: String, list: Vec<String>)
    requires
        call_ensures(log_line, (label, line), entry),
        call_ensures(split_lines, (line,), list),
    ensures
        entry@ == label@ + seq![' '] + line@,
        list@.len() == lines(line@).len(),
        forall|i: int| 0 <= i < list@.len() ==> (#[trigger] list@[i])@ == lines(line@)[i],
{
    reveal_strlit(" ");
    assert(" "@ =~= seq![' ']);
    assert(words(list@).len() == list@.len());
    assert forall|i: int| 0 <= i < list@.len() implies (#[trigger] list@[i])@ == lines(
        line@,
    )[i] by {
        assert(words(list@)[i] == list@[i]@);
    }
}

/// Output is told apart by its label: that of `make`, of a reth node, and of the unwind command.
pub proof fn law_labels_tell_sources_apart()
    ensures
        MAKE_LABEL@ == "[MAKE]"@,
        RETH_LABEL@ == "[RETH]"@,
        RETH_UNWIND_LABEL@ == "[RETH-UNWIND]"@,
{
}

} // verus!
