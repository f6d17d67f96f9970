//! File paths as text, in the form that the system has for them.

use crate::verbatim::{
    adjoin, adjoined, base_parts, descended, drive_letter, is_drive_letter, is_verbatim,
    law_adjoined_tells_places_apart, parts, verbatim,
};
use vstd::prelude::*;

verus! {

/// The kind of system that the client is built and run on: Unix, or one that has the paths of
/// Windows and `taskkill` in place of signals.
#[derive(Clone, Copy, Debug, PartialEq, Eq, Structural)]
pub enum Platform {
    Unix,
    Other,
}

impl Platform {
    /// What stands between two parts of a path.
    pub open spec fn separator(self) -> Seq<char> {
        match self {
            Platform::Unix => "/"@,
            Platform::Other => "\\"@,
        }
    }

    /// Whether a character separates two parts of a path.
    pub open spec fn is_separator(self, c: char) -> bool {
        c == '/' || self == Platform::Other && c == '\\'
    }

    /// Whether a path names a drive and nothing else, as in `C:`.
    pub open spec fn is_drive(self, path: Seq<char>) -> bool {
        &&& self == Platform::Other
        &&& path.len() == 2
        &&& is_drive_letter(path[0])
        &&& path[1] == ':'
    }

    /// Whether a path begins neither with a separator nor, where there are drives, with one.
    pub open spec fn is_relative(self, path: Seq<char>) -> bool {
        &&& path.len() > 0 ==> !self.is_separator(path[0])
        &&& self == Platform::Other && path.len() > 1 && is_drive_letter(path[0]) ==> path[1] != ':'
    }

    /// Whether a path is one that the system takes as it is spelled, as in `\\?\C:\geth`.
    pub open spec fn is_verbatim(self, path: Seq<char>) -> bool {
        self == Platform::Other && is_verbatim(path)
    }

    fn to_separator(&self) -> (separator: &'static str)
        ensures
            separator@ == self.separator(),
    {
        match self {
            Platform::Unix => "/",
            Platform::Other => "\\",
        }
    }

    fn separates(&self, c: char) -> (separates: bool)
        ensures
            separates == self.is_separator(c),
    {
        c == '/' || *self == Platform::Other && c == '\\'
    }

    fn names_drive(&self, path: &str) -> (drive: bool)
        ensures
            drive == self.is_drive(path@),
    {
        if *self != Platform::Other || path.unicode_len() != 2 {
            return false;
        }
        drive_letter(path.get_char(0)) && path.get_char(1) == ':'
    }
}

/// Whether a relative path can stand behind `base` with nothing in between.
pub open spec fn takes_leaf(platform: Platform, base: Seq<char>) -> bool {
    ||| base.len() == 0
    ||| platform.is_separator(base.last())
    ||| platform.is_drive(base)
}

/// `leaf` adjoined to `base`: on Unix an absolute `leaf` replaces `base`; a relative one stands
/// behind it, and behind a separator where `base` does not end in one. Nothing is put behind a
/// drive alone, since `C:geth` is what `geth` is called on the drive `C:`. To a base that begins
/// with `\\?\` a leaf is adjoined part by part.
pub open spec fn joined(platform: Platform, base: Seq<char>, leaf: Seq<char>) -> Seq<char> {
    if platform == Platform::Unix && leaf.len() > 0 && leaf[0] == '/' {
        leaf
    } else if platform.is_verbatim(base) && leaf.len() > 0 {
        adjoined(base, leaf)
    } else if takes_leaf(platform, base) {
        base + leaf
    } else {
        base + platform.separator() + leaf
    }
}

/// `leaf` adjoined to `base`.
pub fn join(platform: Platform, base: &str, leaf: &str) -> (path: String)
    requires
        platform == Platform::Other ==> platform.is_relative(leaf@),
    ensures
        path@ == joined(platform, base@, leaf@),
{
    if platform == Platform::Unix && leaf.unicode_len() > 0 && leaf.get_char(0) == '/' {
        return leaf.to_owned();
    }
    if platform == Platform::Other && verbatim(base) && leaf.unicode_len() > 0 {
        return adjoin(base, leaf);
    }
    let base_len: usize = base.unicode_len();
    if base_len == 0 || platform.separates(base.get_char(base_len - 1)) || platform.names_drive(
        base,
    ) {
        base.to_owned().concat(leaf)
    } else {
        base.to_owned().concat(platform.to_separator()).concat(leaf)
    }
}

/// Two relative leaves meet in one path below the same base exactly when they are the same or,
/// below a base that begins with `\\?\`, lead to the same parts, as `a/b` and `a\b` do. Below such
/// a base neither leaf is empty.
pub proof fn law_joined_tells_leaves_apart(
    platform: Platform,
    base: Seq<char>,
    a: Seq<char>,
    b: Seq<char>,
)
    requires
        platform.is_relative(a),
        platform.is_relative(b),
        platform.is_verbatim(base) ==> a.len() > 0 && b.len() > 0,
    ensures
        joined(platform, base, a) == joined(platform, base, b) <==> {
            ||| a == b
            ||| platform.is_verbatim(base) && descended(base_parts(base), parts(a, true))
                == descended(base_parts(base), parts(b, true))
        },
{
    if platform.is_verbatim(base) {
        law_adjoined_tells_places_apart(base, a, b);
    } else {
        let head = if takes_leaf(platform, base) {
            base
        } else {
            base + platform.separator()
        };
        assert(joined(platform, base, a) == head + a);
        assert(joined(platform, base, b) == head + b);
        assert((head + a).skip(head.len() as int) =~= a);
        assert((head + b).skip(head.len() as int) =~= b);
    }
}

/// Whether a path that is put behind this one needs nothing in between: this one is empty, or ends
/// in a slash, or, where paths are those of Windows, ends in a backslash or is a drive alone.
pub open spec fn needs_no_separator(platform: Platform, base: Seq<char>) -> bool {
    ||| base.len() == 0
    ||| base.last() == '/'
    ||| platform == Platform::Other && base.last() == '\\'
    ||| platform == Platform::Other && base.len() == 2 && base[1] == ':' && ('a' <= base[0] <= 'z'
        || 'A' <= base[0] <= 'Z')
}

/// A joined path begins with the base and ends with the leaf, and between them stands one
/// separator, a slash on Unix and a backslash elsewhere, or nothing where none is needed. On Unix
/// an absolute leaf stands alone. A base that begins with `\\?\` is another matter.
pub proof fn law_joined_keeps_base_and_leaf(platform: Platform, base: Seq<char>, leaf: Seq<char>)
    requires
        platform == Platform::Unix || leaf.len() == 0 || !(base.len() >= 4 && base[0] == '\\'
            && base[1] == '\\' && base[2] == '?' && base[3] == '\\'),
    ensures
        ({
            let path = joined(platform, base, leaf);
            let between = if needs_no_separator(platform, base) {
                0int
            } else {
                1
            };
            if platform == Platform::Unix && leaf.len() > 0 && leaf[0] == '/' {
                path == leaf
            } else {
                &&& path.len() == base.len() + between + leaf.len()
                &&& path.take(base.len() as int) == base
                &&& path.skip(base.len() + between) == leaf
                &&& between == 1 ==> path[base.len() as int] == if platform == Platform::Unix {
                    '/'
                } else {
                    '\\'
                }
            }
        }),
{
    reveal_strlit("/");
    reveal_strlit("\\");
    let path = joined(platform, base, leaf);
    if !(platform == Platform::Unix && leaf.len() > 0 && leaf[0] == '/') {
        assert(path.take(base.len() as int) =~= base);
        if takes_leaf(platform, base) {
            assert(path.skip(base.len() as int) =~= leaf);
        } else {
            assert(path.skip(base.len() as int + 1) =~= leaf);
        }
    }
}

/// Below a base that begins with `\\?\` a leaf is adjoined part by part.
pub proof fn law_joined_to_verbatim_base(base: Seq<char>, leaf: Seq<char>)
    requires
        base.len() >= 4 && base[0] == '\\' && base[1] == '\\' && base[2] == '?' && base[3] == '\\',
        leaf.len() > 0,
    ensures
        joined(Platform::Other, base, leaf) == adjoined(base, leaf),
{
}

/// The path that is made of a base and a leaf is the joined one.
pub proof fn law_join_gives_joined(platform: Platform, base: &str, leaf: &str, path: String)
    requires
        platform == Platform::Other ==> platform.is_relative(leaf@),
        call_ensures(join, (platform, base, leaf), path),
    ensures
        path@ == joined(platform, base@, leaf@),
{
}

/// On Unix every path without a slash in front is relative; elsewhere one with neither a separator
/// nor a drive in front is.
pub proof fn law_relative_paths(path: Seq<char>)
    ensures
        Platform::Unix.is_relative(path) <==> !(path.len() > 0 && path[0] == '/'),
        Platform::Other.is_relative(path) <==> !(path.len() > 0 && (path[0] == '/' || path[0]
            == '\\')) && !(path.len() > 1 && path[1] == ':' && ('a' <= path[0] <= 'z' || 'A'
            <= path[0] <= 'Z')),
        forall|base: Seq<char>| #[trigger]
            Platform::Other.is_verbatim(base) <==> base.len() >= 4 && base[0] == '\\' && base[1]
                == '\\' && base[2] == '?' && base[3] == '\\',
        forall|base: Seq<char>| !#[trigger] Platform::Unix.is_verbatim(base),
{
}

} // verus!
