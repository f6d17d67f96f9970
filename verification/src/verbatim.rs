//! Paths that begin with `\\?\`. The system takes such a path as it is spelled, so what is
//! adjoined to it is spelled out: part by part, with a backslash before each, without empty parts,
//! and with `.` and `..` followed.

use crate::text::{characters, push_word, same_text, words};
use vstd::prelude::*;

verus! {

/// Whether a character stands between two parts of a path: a backslash does, and with `slashes` a
/// slash too.
pub open spec fn divides(c: char, slashes: bool) -> bool {
    c == '\\' || slashes && c == '/'
}

/// Whether a character is a letter that can name a drive.
pub open spec fn is_drive_letter(c: char) -> bool {
    'a' <= c <= 'z' || 'A' <= c <= 'Z'
}

/// Whether a path begins with `\\?\`.
pub open spec fn is_verbatim(path: Seq<char>) -> bool {
    path.len() >= 4 && path[0] == '\\' && path[1] == '\\' && path[2] == '?' && path[3] == '\\'
}

/// How many characters stand between a place in a path and the next backslash or the end.
pub open spec fn run_length(path: Seq<char>, at: int) -> nat
    decreases path.len() - at,
{
    if at >= path.len() || path[at] == '\\' {
        0
    } else {
        1 + run_length(path, at + 1)
    }
}

/// The length of what a path that begins with `\\?\` begins with before its parts: a server and
/// its share, as in `\\?\UNC\server\share`, a drive, as in `\\?\C:`, or another name, as in
/// `\\?\name`.
pub open spec fn prefix_len(path: Seq<char>) -> nat {
    if path.len() >= 8 && path[4] == 'U' && path[5] == 'N' && path[6] == 'C' && divides(
        path[7],
        true,
    ) {
        let server = run_length(path, 8);
        let share = run_length(path, (8 + server + 1) as int);
        8 + server + if share > 0 {
            1 + share
        } else {
            0
        }
    } else if path.len() >= 6 && is_drive_letter(path[4]) && path[5] == ':' && (path.len() > 6
        ==> divides(path[6], true)) {
        6
    } else {
        4 + run_length(path, 4)
    }
}

/// Whether a separator follows the prefix of a path.
pub open spec fn is_rooted(path: Seq<char>) -> bool {
    prefix_len(path) < path.len() && divides(path[prefix_len(path) as int], true)
}

/// A list of parts with one more, unless that is empty.
pub open spec fn with_part(list: Seq<Seq<char>>, part: Seq<char>) -> Seq<Seq<char>> {
    if part.len() == 0 {
        list
    } else {
        list.push(part)
    }
}

/// The parts of a text that end with a separator, and the characters behind the last one.
pub open spec fn divided(text: Seq<char>, slashes: bool) -> (Seq<Seq<char>>, Seq<char>)
    decreases text.len(),
{
    if text.len() == 0 {
        (seq![], seq![])
    } else {
        let (list, rest) = divided(text.drop_last(), slashes);
        if divides(text.last(), slashes) {
            (with_part(list, rest), seq![])
        } else {
            (list, rest.push(text.last()))
        }
    }
}

/// What stands between the separators of a text, without empty parts.
pub open spec fn parts(text: Seq<char>, slashes: bool) -> Seq<Seq<char>> {
    let (list, rest) = divided(text, slashes);
    with_part(list, rest)
}

/// Where the parts of a path begin: behind its prefix and the separator that may follow.
pub open spec fn parts_start(path: Seq<char>) -> int {
    if is_rooted(path) {
        prefix_len(path) as int + 1
    } else {
        prefix_len(path) as int
    }
}

/// The parts of a path that begins with `\\?\`, behind its prefix. A slash divides none of them.
pub open spec fn base_parts(path: Seq<char>) -> Seq<Seq<char>> {
    parts(path.skip(parts_start(path)), false)
}

/// Whether a part means this place or the one above.
pub open spec fn is_dots(part: Seq<char>) -> bool {
    part == "."@ || part == ".."@
}

/// Where one comes to on a way: `.` stays, `..` leaves the last part, unless that is made of dots
/// too, and any other part is entered.
pub open spec fn descended(from: Seq<Seq<char>>, way: Seq<Seq<char>>) -> Seq<Seq<char>>
    decreases way.len(),
{
    if way.len() == 0 {
        from
    } else {
        let before = descended(from, way.drop_last());
        if !is_dots(way.last()) {
            before.push(way.last())
        } else if way.last() == ".."@ && before.len() > 0 && !is_dots(before.last()) {
            before.drop_last()
        } else {
            before
        }
    }
}

/// Parts with a backslash before each.
pub open spec fn spelled(list: Seq<Seq<char>>) -> Seq<char>
    decreases list.len(),
{
    if list.len() == 0 {
        seq![]
    } else {
        spelled(list.drop_last()).push('\\') + list.last()
    }
}

/// A relative path adjoined to a path that begins with `\\?\`.
pub open spec fn adjoined(base: Seq<char>, leaf: Seq<char>) -> Seq<char> {
    let list = descended(base_parts(base), parts(leaf, true));
    base.take(prefix_len(base) as int) + if list.len() == 0 && is_rooted(base) {
        seq!['\\']
    } else {
        spelled(list)
    }
}

fn divider(c: char, slashes: bool) -> (is: bool)
    ensures
        is == divides(c, slashes),
{
    c == '\\' || slashes && c == '/'
}

/// Whether a character is a letter that can name a drive.
pub fn drive_letter(c: char) -> (is: bool)
    ensures
        is == is_drive_letter(c),
{
    'a' <= c && c <= 'z' || 'A' <= c && c <= 'Z'
}

/// Whether a path begins with `\\?\`.
pub fn verbatim(path: &str) -> (is: bool)
    ensures
        is == is_verbatim(path@),
{
    path.unicode_len() >= 4 && path.get_char(0) == '\\' && path.get_char(1) == '\\'
        && path.get_char(2) == '?' && path.get_char(3) == '\\'
}

fn to_run_length(path: &Vec<char>, at: usize) -> (n: usize)
    ensures
        n == run_length(path@, at as int),
        at <= path@.len() ==> at + n <= path@.len(),
{
    let mut n: usize = 0;
    while at < path.len() && n < path.len() - at && path[at + n] != '\\'
        invariant
            at <= path@.len() ==> at + n <= path@.len(),
            at > path@.len() ==> n == 0,
            run_length(path@, at as int) == n + run_length(path@, at + n),
        decreases path@.len() - n,
    {
        n = n + 1;
    }
    n
}

fn to_prefix_len(path: &Vec<char>) -> (n: usize)
    requires
        path@.len() >= 4,
    ensures
        n == prefix_len(path@),
        n <= path@.len(),
{
    if path.len() >= 8 && path[4] == 'U' && path[5] == 'N' && path[6] == 'C' && divider(
        path[7],
        true,
    ) {
        let server: usize = to_run_length(path, 8);
        let end: usize = 8 + server;
        if end == path.len() {
            return end;
        }
        let share: usize = to_run_length(path, end + 1);
        if share > 0 {
            end + 1 + share
        } else {
            end
        }
    } else if path.len() >= 6 && drive_letter(path[4]) && path[5] == ':' && (path.len() == 6
        || divider(path[6], true)) {
        6
    } else {
        4 + to_run_length(path, 4)
    }
}

fn to_parts(text: &str, slashes: bool) -> (list: Vec<String>)
    ensures
        words(list@) == parts(text@, slashes),
{
    let all = characters(text);
    let mut list: Vec<String> = Vec::new();
    let mut start: usize = 0;
    let mut i: usize = 0;
    assert(text@.take(0) =~= seq![]);
    assert(words(list@) =~= seq![]);
    assert(text@.subrange(0, 0) =~= seq![]);
    while i < all.len()
        invariant
            all@ == text@,
            start <= i <= all.len(),
            divided(text@.take(i as int), slashes) == (
                words(list@),
                text@.subrange(start as int, i as int),
            ),
        decreases all.len() - i,
    {
        assert(text@.take(i + 1).drop_last() =~= text@.take(i as int));
        assert(text@.take(i + 1).last() == text@[i as int]);
        if divider(all[i], slashes) {
            if start < i {
                push_word(&mut list, text.substring_char(start, i));
            }
            start = i + 1;
            assert(text@.subrange(i + 1, i + 1) =~= seq![]);
        } else {
            assert(text@.subrange(start as int, i + 1) =~= text@.subrange(
                start as int,
                i as int,
            ).push(text@[i as int]));
        }
        i = i + 1;
    }
    assert(text@.take(i as int) =~= text@);
    if start < i {
        push_word(&mut list, text.substring_char(start, i));
    }
    list
}

fn dots(part: &str) -> (is: bool)
    ensures
        is == is_dots(part@),
{
    same_text(part, ".") || same_text(part, "..")
}

fn descend(list: &mut Vec<String>, way: &Vec<String>)
    ensures
        words(final(list)@) == descended(words(old(list)@), words(way@)),
{
    let ghost from = words(list@);
    let mut i: usize = 0;
    assert(words(way@).take(0) =~= seq![]);
    while i < way.len()
        invariant
            i <= way.len(),
            words(list@) == descended(from, words(way@).take(i as int)),
        decreases way.len() - i,
    {
        let part = way[i].as_str();
        let ghost before = words(list@);
        proof {
            let passed = words(way@).take(i + 1);
            assert(passed.drop_last() =~= words(way@).take(i as int));
            assert(passed.last() == part@);
        }
        if !dots(part) {
            push_word(list, part);
        } else if same_text(part, "..") && list.len() > 0 {
            assert(before.last() == list@.last()@);
            if !dots(list[list.len() - 1].as_str()) {
                list.pop();
                assert(words(list@) =~= before.drop_last());
            }
        }
        i = i + 1;
    }
    assert(words(way@).take(i as int) =~= words(way@));
}

fn spell(list: &Vec<String>) -> (text: String)
    ensures
        text@ == spelled(words(list@)),
{
    let mut text = String::new();
    let mut i: usize = 0;
    assert(words(list@).take(0) =~= seq![]);
    assert(text@ =~= seq![]);
    while i < list.len()
        invariant
            i <= list.len(),
            text@ == spelled(words(list@).take(i as int)),
        decreases list.len() - i,
    {
        let ghost before = text@;
        text = text.concat("\\").concat(list[i].as_str());
        proof {
            reveal_strlit("\\");
            let passed = words(list@).take(i + 1);
            assert(passed.drop_last() =~= words(list@).take(i as int));
            assert(passed.last() == list@[i as int]@);
            assert(before + "\\"@ =~= before.push('\\'));
        }
        i = i + 1;
    }
    assert(words(list@).take(i as int) =~= words(list@));
    text
}

/// A relative path adjoined to a path that begins with `\\?\`.
pub fn adjoin(base: &str, leaf: &str) -> (path: String)
    requires
        is_verbatim(base@),
    ensures
        path@ == adjoined(base@, leaf@),
{
    let all = characters(base);
    let prefix: usize = to_prefix_len(&all);
    let rooted = prefix < all.len() && divider(all[prefix], true);
    let start: usize = if rooted {
        prefix + 1
    } else {
        prefix
    };
    let body = base.substring_char(start, all.len());
    assert(body@ =~= base@.skip(start as int));
    let mut list = to_parts(body, false);
    descend(&mut list, &to_parts(leaf, true));
    assert(words(list@).len() == list@.len());
    let head = base.substring_char(0, prefix).to_owned();
    assert(head@ =~= base@.take(prefix as int));
    if list.len() == 0 && rooted {
        proof {
            reveal_strlit("\\");
            assert("\\"@ =~= seq!['\\']);
        }
        head.concat("\\")
    } else {
        head.concat(spell(&list).as_str())
    }
}

/// Whether each part of a list holds something, and no backslash.
spec fn is_clean(list: Seq<Seq<char>>) -> bool {
    forall|i: int| 0 <= i < list.len() ==> (#[trigger] list[i]).len() > 0 && !list[i].contains('\\')
}

proof fn lemma_divided_is_clean(text: Seq<char>, slashes: bool)
    ensures
        is_clean(divided(text, slashes).0),
        !divided(text, slashes).1.contains('\\'),
        is_clean(parts(text, slashes)),
    decreases text.len(),
{
    if text.len() > 0 {
        lemma_divided_is_clean(text.drop_last(), slashes);
        let (list, rest) = divided(text.drop_last(), slashes);
        let (_, more) = divided(text, slashes);
        assert forall|i: int| 0 <= i < more.len() implies more[i] != '\\' by {
            if i < rest.len() {
                assert(rest.contains(rest[i]));
            }
        }
    }
}

proof fn lemma_descended_is_clean(from: Seq<Seq<char>>, way: Seq<Seq<char>>)
    requires
        is_clean(from),
        is_clean(way),
    ensures
        is_clean(descended(from, way)),
    decreases way.len(),
{
    if way.len() > 0 {
        assert(is_clean(way.drop_last()));
        lemma_descended_is_clean(from, way.drop_last());
        assert(way.last() == way[way.len() - 1]);
    }
}

proof fn lemma_spelled_is_injective(a: Seq<Seq<char>>, b: Seq<Seq<char>>)
    requires
        is_clean(a),
        is_clean(b),
        spelled(a) == spelled(b),
    ensures
        a == b,
    decreases a.len(),
{
    if a.len() > 0 && b.len() > 0 {
        let text = spelled(a);
        let n = text.len() as int;
        let (x, y) = (a.last(), b.last());
        assert(x == a[a.len() - 1] && y == b[b.len() - 1]);
        let (head, other) = (spelled(a.drop_last()), spelled(b.drop_last()));
        assert(text[n - x.len() - 1] == '\\' && text[n - y.len() - 1] == '\\');
        if x.len() < y.len() {
            let at = y.len() - x.len() - 1;
            assert(text[n - x.len() - 1] == y[at]);
            assert(y.contains(y[at]));
        }
        if y.len() < x.len() {
            let at = x.len() - y.len() - 1;
            assert(text[n - y.len() - 1] == x[at]);
            assert(x.contains(x[at]));
        }
        assert(text.skip(n - x.len()) =~= x);
        assert(text.skip(n - y.len()) =~= y);
        assert(text.take(n - x.len() - 1) =~= head);
        assert(text.take(n - y.len() - 1) =~= other);
        assert(is_clean(a.drop_last()) && is_clean(b.drop_last()));
        lemma_spelled_is_injective(a.drop_last(), b.drop_last());
        assert(a =~= a.drop_last().push(x));
        assert(b =~= b.drop_last().push(y));
    } else {
        assert(a.len() > 0 ==> spelled(a).len() > 0);
        assert(b.len() > 0 ==> spelled(b).len() > 0);
        assert(a =~= b);
    }
}

/// Two ways meet in one path below the same base exactly when they lead to the same parts.
pub proof fn law_adjoined_tells_places_apart(base: Seq<char>, a: Seq<char>, b: Seq<char>)
    ensures
        adjoined(base, a) == adjoined(base, b) <==> descended(base_parts(base), parts(a, true))
            == descended(base_parts(base), parts(b, true)),
{
    let from = base_parts(base);
    let (x, y) = (descended(from, parts(a, true)), descended(from, parts(b, true)));
    lemma_divided_is_clean(a, true);
    lemma_divided_is_clean(b, true);
    lemma_divided_is_clean(base.skip(parts_start(base)), false);
    lemma_descended_is_clean(from, parts(a, true));
    lemma_descended_is_clean(from, parts(b, true));
    if adjoined(base, a) == adjoined(base, b) {
        let head = base.take(prefix_len(base) as int);
        let (s, t) = (
            if x.len() == 0 && is_rooted(base) {
                seq!['\\']
            } else {
                spelled(x)
            },
            if y.len() == 0 && is_rooted(base) {
                seq!['\\']
            } else {
                spelled(y)
            },
        );
        assert((head + s).skip(head.len() as int) =~= s);
        assert((head + t).skip(head.len() as int) =~= t);
        assert(x.len() > 0 ==> x.last() == x[x.len() - 1] && spelled(x).len() >= 2);
        assert(y.len() > 0 ==> y.last() == y[y.len() - 1] && spelled(y).len() >= 2);
        if x.len() > 0 && y.len() > 0 {
            lemma_spelled_is_injective(x, y);
        } else {
            assert(x =~= y);
        }
    }
}

/// A name without separators is one part.
pub proof fn lemma_name_is_one_part(name: Seq<char>)
    requires
        name.len() > 0,
        forall|i: int| 0 <= i < name.len() ==> !divides(#[trigger] name[i], true),
    ensures
        parts(name, true) == seq![name],
{
    lemma_name_is_undivided(name);
    assert(Seq::<Seq<char>>::empty().push(name) =~= seq![name]);
}

proof fn lemma_name_is_undivided(name: Seq<char>)
    requires
        forall|i: int| 0 <= i < name.len() ==> !divides(#[trigger] name[i], true),
    ensures
        divided(name, true) == (Seq::<Seq<char>>::empty(), name),
    decreases name.len(),
{
    if name.len() > 0 {
        lemma_name_is_undivided(name.drop_last());
        assert(name.drop_last().push(name.last()) =~= name);
        assert(!divides(name[name.len() - 1], true));
    } else {
        assert(name =~= seq![]);
    }
}

/// What stands before a separator and what stands behind it have parts of their own, and a text
/// with both has those of the one and then those of the other.
pub proof fn law_separator_divides_parts(a: Seq<char>, c: char, b: Seq<char>, slashes: bool)
    requires
        c == '\\' || slashes && c == '/',
    ensures
        parts(a + seq![c] + b, slashes) == parts(a, slashes) + parts(b, slashes),
{
    lemma_divided_behind_separator(a, c, b, slashes);
    let (list, rest) = divided(b, slashes);
    assert(with_part(parts(a, slashes) + list, rest) =~= parts(a, slashes) + with_part(list, rest));
}

proof fn lemma_divided_behind_separator(a: Seq<char>, c: char, b: Seq<char>, slashes: bool)
    requires
        divides(c, slashes),
    ensures
        divided(a + seq![c] + b, slashes) == (
            parts(a, slashes) + divided(b, slashes).0,
            divided(b, slashes).1,
        ),
    decreases b.len(),
{
    let text = a + seq![c] + b;
    if b.len() == 0 {
        assert(text.drop_last() =~= a);
        assert(text.last() == c);
        assert(parts(a, slashes) + divided(b, slashes).0 =~= parts(a, slashes));
    } else {
        lemma_divided_behind_separator(a, c, b.drop_last(), slashes);
        assert(text.drop_last() =~= a + seq![c] + b.drop_last());
        assert(text.last() == b.last());
        let (list, rest) = divided(b.drop_last(), slashes);
        assert(with_part(parts(a, slashes) + list, rest) =~= parts(a, slashes) + with_part(
            list,
            rest,
        ));
    }
}

/// A text without separators is one part, or none where it is empty.
pub proof fn law_undivided_text_is_one_part(text: Seq<char>, slashes: bool)
    requires
        forall|i: int|
            0 <= i < text.len() ==> #[trigger] text[i] != '\\' && (slashes ==> text[i] != '/'),
    ensures
        text.len() == 0 ==> parts(text, slashes).len() == 0,
        text.len() > 0 ==> parts(text, slashes) == seq![text],
{
    lemma_undivided(text, slashes);
    assert(Seq::<Seq<char>>::empty().push(text) =~= seq![text]);
}

proof fn lemma_undivided(text: Seq<char>, slashes: bool)
    requires
        forall|i: int|
            0 <= i < text.len() ==> #[trigger] text[i] != '\\' && (slashes ==> text[i] != '/'),
    ensures
        divided(text, slashes) == (Seq::<Seq<char>>::empty(), text),
    decreases text.len(),
{
    if text.len() > 0 {
        lemma_undivided(text.drop_last(), slashes);
        assert(text.drop_last().push(text.last()) =~= text);
        assert(!divides(text[text.len() - 1], slashes));
    } else {
        assert(text =~= seq![]);
    }
}

/// A way is followed part by part: `.` stays, `..` leaves the last part unless there is none or it
/// is made of dots too, and any other part is entered.
pub proof fn law_one_part_is_followed(from: Seq<Seq<char>>, part: Seq<char>)
    ensures
        part == seq!['.'] ==> descended(from, seq![part]) == from,
        part == seq!['.', '.'] ==> descended(from, seq![part]) == if from.len() > 0 && from.last()
            != seq!['.'] && from.last() != seq!['.', '.'] {
            from.drop_last()
        } else {
            from
        },
        part != seq!['.'] && part != seq!['.', '.'] ==> descended(from, seq![part]) == from.push(
            part,
        ),
{
    reveal_strlit(".");
    reveal_strlit("..");
    assert("."@ =~= seq!['.']);
    assert(".."@ =~= seq!['.', '.']);
    assert(seq!['.'].len() != seq!['.', '.'].len());
    assert(seq![part].drop_last() =~= seq![]);
    assert(descended(from, seq![part].drop_last()) == from);
    assert(seq![part].last() == part);
}

/// To follow one way and then another is to follow both in turn.
pub proof fn law_ways_are_followed_in_turn(
    from: Seq<Seq<char>>,
    a: Seq<Seq<char>>,
    b: Seq<Seq<char>>,
)
    ensures
        descended(from, a + b) == descended(descended(from, a), b),
    decreases b.len(),
{
    if b.len() == 0 {
        assert(a + b =~= a);
    } else {
        law_ways_are_followed_in_turn(from, a, b.drop_last());
        assert((a + b).drop_last() =~= a + b.drop_last());
        assert((a + b).last() == b.last());
    }
}

/// Parts are spelled one behind the other, each behind a backslash of its own.
pub proof fn law_parts_are_spelled_in_turn(a: Seq<Seq<char>>, part: Seq<char>)
    ensures
        spelled(seq![]).len() == 0,
        spelled(a.push(part)) == spelled(a) + seq!['\\'] + part,
{
    assert(a.push(part).drop_last() =~= a);
    assert(spelled(a).push('\\') =~= spelled(a) + seq!['\\']);
}

proof fn lemma_run_length(head: Seq<char>, run: Seq<char>, tail: Seq<char>, i: int)
    requires
        0 <= i <= run.len(),
        !run.contains('\\'),
        tail.len() > 0 ==> tail[0] == '\\',
    ensures
        run_length(head + run + tail, head.len() + i) == run.len() - i,
    decreases run.len() - i,
{
    let path = head + run + tail;
    if i < run.len() {
        lemma_run_length(head, run, tail, i + 1);
        assert(path[head.len() + i] == run[i]);
        assert(run.contains(run[i]));
    } else if tail.len() > 0 {
        assert(path[head.len() + i] == tail[0]);
    }
}

/// What a leaf makes of a base whose parts behind the prefix are `list`, with a separator behind
/// the prefix or not.
pub open spec fn spelled_behind(
    prefix: Seq<char>,
    rooted: bool,
    list: Seq<Seq<char>>,
) -> Seq<char> {
    if list.len() == 0 && rooted {
        prefix + seq!['\\']
    } else {
        prefix + spelled(list)
    }
}

/// Below a drive, as in `\\?\C:\repo`, the drive stays, and the parts of the leaf are followed from
/// the parts behind it.
pub proof fn law_adjoined_below_drive(letter: char, tail: Seq<char>, leaf: Seq<char>)
    requires
        'a' <= letter <= 'z' || 'A' <= letter <= 'Z',
        tail.len() > 0 ==> tail[0] == '\\' || tail[0] == '/',
    ensures
        ({
            let prefix = seq!['\\', '\\', '?', '\\', letter, ':'];
            let body = if tail.len() > 0 {
                tail.skip(1)
            } else {
                tail
            };
            is_verbatim(prefix + tail) && adjoined(prefix + tail, leaf) == spelled_behind(
                prefix,
                tail.len() > 0,
                descended(parts(body, false), parts(leaf, true)),
            )
        }),
{
    let prefix = seq!['\\', '\\', '?', '\\', letter, ':'];
    let base = prefix + tail;
    assert(base[4] == letter && base[5] == ':');
    if tail.len() > 0 {
        assert(base[6] == tail[0]);
    }
    assert(prefix_len(base) == 6);
    assert(base.take(6) =~= prefix);
    if tail.len() > 0 {
        assert(base.skip(7) =~= tail.skip(1));
    } else {
        assert(base.skip(6) =~= tail);
    }
}

/// Below a share, as in `\\?\UNC\server\share\repo`, the server and the share stay, and the parts
/// of the leaf are followed from the parts behind them.
pub proof fn law_adjoined_below_share(
    server: Seq<char>,
    share: Seq<char>,
    tail: Seq<char>,
    leaf: Seq<char>,
)
    requires
        !server.contains('\\'),
        share.len() > 0 && !share.contains('\\'),
        tail.len() > 0 ==> tail[0] == '\\',
    ensures
        ({
            let prefix = seq!['\\', '\\', '?', '\\', 'U', 'N', 'C', '\\'] + server + seq!['\\']
                + share;
            let body = if tail.len() > 0 {
                tail.skip(1)
            } else {
                tail
            };
            is_verbatim(prefix + tail) && adjoined(prefix + tail, leaf) == spelled_behind(
                prefix,
                tail.len() > 0,
                descended(parts(body, false), parts(leaf, true)),
            )
        }),
{
    let start = seq!['\\', '\\', '?', '\\', 'U', 'N', 'C', '\\'];
    let prefix = start + server + seq!['\\'] + share;
    let base = prefix + tail;
    let n = prefix.len() as int;
    lemma_run_length(start, server, seq!['\\'] + share + tail, 0);
    assert(base =~= start + server + (seq!['\\'] + share + tail));
    let head = start + server + seq!['\\'];
    lemma_run_length(head, share, tail, 0);
    assert(base =~= head + share + tail);
    assert(forall|i: int| 0 <= i < 8 ==> base[i] == start[i]);
    assert(prefix_len(base) == n);
    assert(base.take(n) =~= prefix);
    if tail.len() > 0 {
        assert(base[n] == tail[0]);
        assert(base.skip(n + 1) =~= tail.skip(1));
    } else {
        assert(base.skip(n) =~= tail);
    }
}

/// Below another name, as in `\\?\name\repo`, the name stays, and the parts of the leaf are
/// followed from the parts behind it.
pub proof fn law_adjoined_below_name(name: Seq<char>, tail: Seq<char>, leaf: Seq<char>)
    requires
        !name.contains('\\'),
        tail.len() > 0 ==> tail[0] == '\\',
        !(name.len() >= 2 && ('a' <= name[0] <= 'z' || 'A' <= name[0] <= 'Z') && name[1] == ':' && (
        name.len() > 2 ==> name[2] == '/')),
        !(name.len() == 3 && name[0] == 'U' && name[1] == 'N' && name[2] == 'C' && tail.len() > 0),
        !(name.len() > 3 && name[0] == 'U' && name[1] == 'N' && name[2] == 'C' && name[3] == '/'),
    ensures
        ({
            let prefix = seq!['\\', '\\', '?', '\\'] + name;
            let body = if tail.len() > 0 {
                tail.skip(1)
            } else {
                tail
            };
            is_verbatim(prefix + tail) && adjoined(prefix + tail, leaf) == spelled_behind(
                prefix,
                tail.len() > 0,
                descended(parts(body, false), parts(leaf, true)),
            )
        }),
{
    let start = seq!['\\', '\\', '?', '\\'];
    let prefix = start + name;
    let base = prefix + tail;
    let n = prefix.len() as int;
    lemma_run_length(start, name, tail, 0);
    assert(forall|i: int| 0 <= i < 4 ==> base[i] == start[i]);
    assert(forall|i: int| 0 <= i < name.len() ==> #[trigger] name[i] == base[4 + i]);
    assert(forall|i: int| 0 <= i < name.len() ==> #[trigger] name[i] != '\\') by {
        assert(forall|i: int| 0 <= i < name.len() ==> name.contains(#[trigger] name[i]));
    }
    if tail.len() > 0 {
        assert(base[n] == tail[0]);
    }
    assert(!(base.len() >= 8 && base[4] == 'U' && base[5] == 'N' && base[6] == 'C' && divides(
        base[7],
        true,
    ))) by {
        if name.len() == 0 || name.len() == 1 || name.len() == 2 {
            assert(tail.len() > 0 ==> base[4 + name.len() as int] == '\\');
        } else {
            assert(name[0] == base[4] && name[1] == base[5] && name[2] == base[6]);
            if name.len() > 3 {
                assert(name[3] == base[7]);
            }
        }
    }
    assert(!(base.len() >= 6 && is_drive_letter(base[4]) && base[5] == ':' && (base.len() > 6
        ==> divides(base[6], true)))) by {
        if name.len() < 2 {
            assert(tail.len() > 0 ==> base[4 + name.len() as int] == '\\');
        } else {
            assert(name[0] == base[4] && name[1] == base[5]);
            if name.len() > 2 {
                assert(name[2] == base[6]);
            }
        }
    }
    assert(prefix_len(base) == n);
    assert(base.take(n) =~= prefix);
    if tail.len() > 0 {
        assert(base.skip(n + 1) =~= tail.skip(1));
    } else {
        assert(base.skip(n) =~= tail);
    }
}

} // verus!
