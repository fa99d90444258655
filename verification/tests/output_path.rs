use conversion::args::build_output_path;

fn resolve(input: &str, container: &str, name: Option<&str>) -> String {
    build_output_path(input, container, name.map(|s| s.to_string()))
}

#[test]
fn default_name_appends_to_the_whole_input_path() {
    assert_eq!(resolve("/a/b/clip.mov", "mp4", None), "/a/b/clip.mov_converted.mp4");
    assert_eq!(resolve("clip", "mkv", None), "clip_converted.mkv");
    assert_eq!(resolve("", "", None), "_converted.");
}

#[test]
fn blank_custom_name_counts_as_none() {
    assert_eq!(resolve("/a/b/clip.mov", "mp4", Some("")), "/a/b/clip.mov_converted.mp4");
    assert_eq!(resolve("/a/b/clip.mov", "mp4", Some("  \t\n")), "/a/b/clip.mov_converted.mp4");
    assert_eq!(resolve("/a/b/clip.mov", "mp4", Some("\u{3000}\u{a0}")), "/a/b/clip.mov_converted.mp4");
}

#[test]
fn custom_name_without_extension_gets_the_container() {
    assert_eq!(resolve("/a/b/clip.mov", "mp4", Some("final")), "/a/b/final.mp4");
    assert_eq!(resolve("/a/b/clip.mov", "mp4", Some("  final \n")), "/a/b/final.mp4");
    assert_eq!(resolve("/a/b/clip.mov", "mp4", Some(".hidden")), "/a/b/.hidden.mp4");
    assert_eq!(resolve("/a/b/clip.mov", "", Some("final")), "/a/b/final");
    assert_eq!(resolve("/a/b/clip.mov", "mp4", Some("my final cut")), "/a/b/my final cut.mp4");
}

#[test]
fn custom_name_with_extension_keeps_it() {
    assert_eq!(resolve("/a/b/clip.mov", "mp4", Some("final.mkv")), "/a/b/final.mkv");
    assert_eq!(resolve("/a/b/clip.mov", "mp4", Some("final.")), "/a/b/final.");
    assert_eq!(resolve("/a/b/clip.mov", "mp4", Some("a.b.c")), "/a/b/a.b.c");
    assert_eq!(resolve("/a/b/clip.mov", "mp4", Some(".a.b")), "/a/b/.a.b");
}

#[test]
fn input_without_directory_gives_no_prefix() {
    assert_eq!(resolve("clip.mov", "mp4", Some("final")), "final.mp4");
    assert_eq!(resolve("", "mp4", Some("final")), "final.mp4");
    assert_eq!(resolve("/", "mp4", Some("final")), "final.mp4");
    assert_eq!(resolve(".", "mp4", Some("final")), "final.mp4");
    assert_eq!(resolve("..", "mp4", Some("final")), "final.mp4");
}

#[test]
fn parent_directory_follows_the_path_rules() {
    assert_eq!(resolve("/clip.mov", "mp4", Some("final")), "/final.mp4");
    assert_eq!(resolve("a/b/", "mp4", Some("final")), "a/final.mp4");
    assert_eq!(resolve("a//b", "mp4", Some("final")), "a/final.mp4");
    assert_eq!(resolve("a/./b/.", "mp4", Some("final")), "a/final.mp4");
    assert_eq!(resolve("./clip.mov", "mp4", Some("final")), "./final.mp4");
    assert_eq!(resolve("a/b/..", "mp4", Some("final")), "a/b/final.mp4");
    assert_eq!(resolve("//a", "mp4", Some("final")), "/final.mp4");
    assert_eq!(resolve("/a/b.c/clip", "mp4", Some("final")), "/a/b.c/final.mp4");
}

#[test]
fn custom_name_may_carry_a_path() {
    assert_eq!(resolve("/a/b/clip.mov", "mp4", Some("/tmp/out")), "/tmp/out.mp4");
    assert_eq!(resolve("/a/b/clip.mov", "mp4", Some("sub/out")), "/a/b/sub/out.mp4");
    assert_eq!(resolve("/a/b/clip.mov", "mp4", Some("sub.d/out")), "/a/b/sub.d/out.mp4");
    assert_eq!(resolve("/a/b/clip.mov", "mp4", Some("out/")), "/a/b/out.mp4");
    assert_eq!(resolve("/a/b/clip.mov", "mp4", Some("out/.")), "/a/b/out.mp4");
    assert_eq!(resolve("/a/b/clip.mov", "mp4", Some("..")), "/a/b/..");
    assert_eq!(resolve("/a/b/clip.mov", "mp4", Some("/")), "/");
    assert_eq!(resolve("/a/b/clip.mov", "mp4", Some(".")), "/a/b.mp4");
}

#[test]
fn resolution_agrees_with_the_standard_path_type() {
    let inputs = [
        "/a/b/clip.mov", "clip.mov", "a/b/", "a//b", "./x", "/x", "a/./b/.", "..", "a/..", "", "//a",
        "/", ".", "./", "a/b/../c", ".a/b", "/a/b.c/", "///", "./.", "a",
    ];
    let names = [
        "final", "final.mkv", ".hidden", "x/y", "/abs", "out/", "a.", "..", "n.tar.gz", ".", "./", "/",
        "a/..", "./x", "..a", "a/./", "x//", ".a.", "...",
    ];
    for input in inputs {
        for name in names {
            let mut expected = match std::path::Path::new(input).parent() {
                Some(parent) if !parent.as_os_str().is_empty() => parent.to_path_buf(),
                _ => std::path::PathBuf::new(),
            };
            expected.push(name);
            if expected.extension().is_none() {
                expected.set_extension("mp4");
            }
            assert_eq!(
                resolve(input, "mp4", Some(name)),
                expected.to_string_lossy().to_string(),
                "input {:?} name {:?}",
                input,
                name
            );
        }
    }
}
