use std::path::Path;
use wayland_vdagent::path::{file_name_of, joined, uniquified};
use wayland_vdagent::save_dir::{read_user_dirs_download, resolve_save_dir, user_dirs_file};

fn text(bytes: Vec<u8>) -> String {
    String::from_utf8(bytes).unwrap()
}

fn bytes(s: &str) -> Option<Vec<u8>> {
    Some(s.as_bytes().to_vec())
}

#[test]
fn file_names_like_the_standard_library() {
    for p in [
        "", "/", ".", "..", "a", "/a", "a/", "a//", "a/.", "a/./", "a/..", "./a", "./", "/.",
        "/..", "a/b.txt", "../../etc/passwd", "a/b/../c", "//a//b//", ".hidden", "a/.hidden/",
        "./.", ".//a", "/./a", "...", "a b", "/a/./././",
    ] {
        let expected = Path::new(p).file_name().map(|n| n.to_str().unwrap().to_string());
        assert_eq!(file_name_of(p.as_bytes()).map(text), expected, "{}", p);
    }
}

#[test]
fn joins_like_the_standard_library() {
    for dir in ["", "/", "/home/u", "/home/u/", "rel", "."] {
        for rest in ["", "a", "a/b", "/abs", "."] {
            let expected = Path::new(dir).join(rest).to_str().unwrap().to_string();
            assert_eq!(text(joined(dir.as_bytes(), rest.as_bytes())), expected, "{} {}", dir, rest);
        }
    }
}

fn expected_alternative(base: &str, n: u32) -> String {
    let base = Path::new(base);
    let stem = base.file_stem().and_then(|s| s.to_str()).unwrap_or("file");
    let ext = base.extension().and_then(|s| s.to_str());
    let parent = base.parent().unwrap_or_else(|| Path::new(""));
    let name = match ext {
        Some(e) => format!("{} ({}).{}", stem, n, e),
        None => format!("{} ({})", stem, n),
    };
    parent.join(name).to_str().unwrap().to_string()
}

#[test]
fn alternatives_carry_a_number() {
    assert_eq!(text(uniquified(b"/d/report.pdf", 1)), "/d/report (1).pdf");
    assert_eq!(text(uniquified(b"/d/a.tar.gz", 12)), "/d/a.tar (12).gz");
    assert_eq!(text(uniquified(b"/d/README", 2)), "/d/README (2)");
    assert_eq!(text(uniquified(b"/d/.profile", 3)), "/d/.profile (3)");
    assert_eq!(text(uniquified(b"/d/odd.", 4)), "/d/odd (4).");
}

#[test]
fn alternatives_like_the_standard_library() {
    for base in [
        "", "/", ".", "..", "a", "/a", "a.b", "/d/a.b", "/d//a.b/", "d/./a.b", "d/../a.b", ".x",
        "/.x", "a/..", "/d/a.", "/d/.a.b", "/d/...", "/d/..a", "./a", "/d/./a", "//a",
    ] {
        for n in [1, 63] {
            assert_eq!(
                text(uniquified(base.as_bytes(), n)),
                expected_alternative(base, n),
                "{}",
                base
            );
        }
    }
}

#[test]
fn parts_that_are_no_text_are_left_out() {
    assert_eq!(uniquified(b"/d/\xff.txt", 1), b"/d/file (1).txt");
    assert_eq!(uniquified(b"/d/a.\xff", 1), b"/d/a (1)");
    assert_eq!(uniquified(b"/\xff/a", 1), b"/\xff/a (1)");
}

#[test]
fn alternatives_differ_and_stay_beside() {
    let base = "/save/dir/a.txt";
    let mut seen = vec![base.to_string()];
    for n in 1..64 {
        let p = text(uniquified(base.as_bytes(), n));
        assert!(!seen.contains(&p));
        assert_eq!(Path::new(&p).parent(), Path::new(base).parent());
        seen.push(p);
    }
}

#[test]
fn download_directory_of_the_user() {
    let home = bytes("/home/u");
    let file = "# comment\nXDG_DESKTOP_DIR=\"$HOME/Desktop\"\n  XDG_DOWNLOAD_DIR=\"$HOME/Dl\"  \nXDG_DOWNLOAD_DIR=\"/no\"\n";
    assert_eq!(read_user_dirs_download(file, &home).map(text), Some("/home/u/Dl".to_string()));
    assert_eq!(read_user_dirs_download(file, &None), None);
    let absolute = "XDG_DOWNLOAD_DIR=\"/data/in\"\r\n";
    assert_eq!(read_user_dirs_download(absolute, &None).map(text), Some("/data/in".to_string()));
    assert_eq!(read_user_dirs_download("XDG_DOWNLOAD_DIR= rel ", &home), bytes("rel"));
    assert_eq!(read_user_dirs_download("XDG_DOWNLOAD_DIR=\"\"\"a\"\"", &home), bytes("a"));
    assert_eq!(read_user_dirs_download("XDG_DOWNLOAD_DIR=\"$HOME/\"", &home), bytes("/home/u/"));
    assert_eq!(read_user_dirs_download("XDG_DOWNLOAD_DIR=\"$HOME\"", &home), bytes("$HOME"));
    assert_eq!(read_user_dirs_download("XDG_DOWNLOAD_DIR=$HOME//x", &home), bytes("/x"));
    assert_eq!(read_user_dirs_download("XDG_DOWNLOAD_DIR", &home), None);
    assert_eq!(read_user_dirs_download("", &home), None);
}

#[test]
fn user_dirs_file_places() {
    assert_eq!(
        user_dirs_file(&bytes("/cfg"), &bytes("/home/u")).map(text),
        Some("/cfg/user-dirs.dirs".to_string())
    );
    assert_eq!(
        user_dirs_file(&None, &bytes("/home/u")).map(text),
        Some("/home/u/.config/user-dirs.dirs".to_string())
    );
    assert_eq!(user_dirs_file(&None, &None), None);
}

#[test]
fn save_directory_choices() {
    let d = || bytes("/dl");
    let u = || bytes("/user");
    let h = || bytes("/home/u");
    assert_eq!(text(resolve_save_dir(d(), u(), h())), "/dl");
    assert_eq!(text(resolve_save_dir(None, u(), h())), "/user");
    assert_eq!(text(resolve_save_dir(None, None, h())), "/home/u/Downloads");
    assert_eq!(text(resolve_save_dir(None, None, None)), "/tmp");
}

#[test]
fn without_a_home_files_land_in_tmp() {
    let file = "XDG_DOWNLOAD_DIR=\"$HOME/Dl\"\n";
    let user_dirs = read_user_dirs_download(file, &None);
    assert_eq!(text(resolve_save_dir(None, user_dirs, None)), "/tmp");
}

#[test]
fn parents_lose_the_last_component() {
    for base in ["/a/b/c", "a/b/c", "/a//b/./c/", "c", "/c", "./c", "../c"] {
        let p = text(uniquified(base.as_bytes(), 5));
        assert_eq!(Path::new(&p).parent(), Path::new(base).parent(), "{}", base);
        assert_eq!(Path::new(&p).is_absolute(), Path::new(base).is_absolute());
    }
}
