use bench_clients::path::{join, Platform};
use std::path::PathBuf;

#[test]
fn paths_are_joined_as_std_does() {
    for base in ["", "/", ".", "data", "data/", "/var/lib/geth", "/var//", "\u{e9}"] {
        for leaf in ["", "geth", "build/bin/geth", "/abs", "\u{e9}", "x/"] {
            let expected = PathBuf::from(base).join(leaf);
            assert_eq!(join(Platform::Unix, base, leaf), expected.to_str().unwrap(), "{:?} {:?}", base, leaf);
        }
    }
}

#[test]
fn different_leaves_give_different_paths() {
    for platform in [Platform::Unix, Platform::Other] {
        assert_ne!(join(platform, "/out", "bin"), join(platform, "/out", "bin2"));
        assert_ne!(
            join(platform, "/out/", "reth_a1b2c3d4"),
            join(platform, "/out/", "geth_a1b2c3d4")
        );
    }
    assert_eq!(join(Platform::Unix, "/out", "bin"), "/out/bin");
}

#[test]
fn paths_have_backslashes_elsewhere() {
    let other = |base: &str, leaf: &str| join(Platform::Other, base, leaf);
    assert_eq!(other("D:\\out", "bin"), "D:\\out\\bin");
    assert_eq!(other("D:\\out\\", "bin"), "D:\\out\\bin");
    assert_eq!(other("D:/out/", "bin"), "D:/out/bin");
    assert_eq!(other("D:/out", "build/bin/geth"), "D:/out\\build/bin/geth");
    assert_eq!(other("C:", "geth"), "C:geth");
    assert_eq!(other("c:", "geth"), "c:geth");
    assert_eq!(other("1:", "geth"), "1:\\geth");
    assert_eq!(other("C:x", "geth"), "C:x\\geth");
    assert_eq!(other("", "geth"), "geth");
    // On Unix none of this is special.
    assert_eq!(join(Platform::Unix, "C:", "geth"), "C:/geth");
    assert_eq!(join(Platform::Unix, "out\\", "geth"), "out\\/geth");
}

#[test]
fn verbatim_paths_are_spelled_out() {
    let other = |base: &str, leaf: &str| join(Platform::Other, base, leaf);
    let reth = r"\\?\C:\repo\target\release\reth";
    assert_eq!(other(r"\\?\C:\repo", "target/release/reth"), reth);
    assert_eq!(other(r"\\?\C:\repo\", "target/release/reth"), reth);
    assert_eq!(other(r"\\?\C:\\repo", r"target//release\reth/"), reth);
    assert_eq!(other(r"\\?\C:", "bin"), r"\\?\C:\bin");
    assert_eq!(other(r"\\?\C:\", "bin"), r"\\?\C:\bin");
    assert_eq!(other(r"\\?\c:/out", "bin"), r"\\?\c:\out\bin");
    assert_eq!(other(r"\\?\UNC\server\share", "bin"), r"\\?\UNC\server\share\bin");
    assert_eq!(other(r"\\?\UNC\server\share\out", "bin"), r"\\?\UNC\server\share\out\bin");
    assert_eq!(other(r"\\?\name\out", "bin"), r"\\?\name\out\bin");
    // A slash is part of a name in the base, but not in the leaf.
    assert_eq!(other(r"\\?\C:\a/b", "c/d"), r"\\?\C:\a/b\c\d");
    // Dots in the leaf are followed, up to the prefix; those in the base stay.
    assert_eq!(other(r"\\?\C:\out", "./a/../b"), r"\\?\C:\out\b");
    assert_eq!(other(r"\\?\C:\out", "../../b"), r"\\?\C:\b");
    assert_eq!(other(r"\\?\UNC\server\share\out", "../../b"), r"\\?\UNC\server\share\b");
    assert_eq!(other(r"\\?\C:\.\out", "bin"), r"\\?\C:\.\out\bin");
    assert_eq!(other(r"\\?\C:\", "."), r"\\?\C:\");
    assert_eq!(other(r"\\?\C:", "."), r"\\?\C:");
    // Other paths are not spelled out.
    assert_eq!(other(r"\\server\share", "a/b"), r"\\server\share\a/b");
    assert_eq!(other(r"//?/C:/out", "a/b"), r"//?/C:/out\a/b");
    assert_eq!(join(Platform::Unix, r"\\?\C:\out", "a/b"), r"\\?\C:\out/a/b");
}

#[test]
fn verbatim_paths_meet_where_leaves_lead_to_the_same_parts() {
    let base = r"\\?\C:\out";
    assert_eq!(join(Platform::Other, base, "a/b"), join(Platform::Other, base, r"a\b"));
    assert_ne!(join(Platform::Other, base, "a/b"), join(Platform::Other, base, "a_b"));
    assert_ne!(join(Platform::Other, "out", "a/b"), join(Platform::Other, "out", r"a\b"));
}
