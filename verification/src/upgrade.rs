//! The decisions of the self-upgrade: which release asset to fetch, and
//! whether the running binary is a local build.

use vstd::prelude::*;

use crate::text::{
    chars_of, contains_chars, contains_seq, lines, lines_of, opt_seq, push_str, same_text, string_of,
    strip_start, strip_start_chars, trim, trim_chars, views,
};

verus! {

/// Where release assets are downloaded from.
pub const DOWNLOAD_BASE: &'static str = "https://github.com/opensource-com/rlwy/releases/download";

/// A path segment that marks a release build of the workspace.
pub open spec fn release_seg(windows: bool) -> Seq<char> {
    if windows {
        "\\target\\release\\"@
    } else {
        "/target/release/"@
    }
}

/// A path segment that marks a debug build of the workspace.
pub open spec fn debug_seg(windows: bool) -> Seq<char> {
    if windows {
        "\\target\\debug\\"@
    } else {
        "/target/debug/"@
    }
}

/// Whether the executable path lies in a cargo `target/release` or
/// `target/debug` directory (with the separators of the platform).
pub fn is_dev_build(exe: &str, windows: bool) -> (b: bool)
    ensures
        b == (contains_seq(exe@, release_seg(windows)) || contains_seq(exe@, debug_seg(windows))),
{
    let p = chars_of(exe);
    let (rel, dbg) = if windows {
        ("\\target\\release\\", "\\target\\debug\\")
    } else {
        ("/target/release/", "/target/debug/")
    };
    let rc = chars_of(rel);
    let dc = chars_of(dbg);
    contains_chars(p.as_slice(), rc.as_slice()) || contains_chars(p.as_slice(), dc.as_slice())
}

/// The platforms a binary is published for: `(os, arch, target triple)`.
pub open spec fn target_of(os: Seq<char>, arch: Seq<char>) -> Option<Seq<char>> {
    if os == "linux"@ && arch == "x86_64"@ {
        Some("x86_64-unknown-linux-gnu"@)
    } else if os == "linux"@ && arch == "aarch64"@ {
        Some("aarch64-unknown-linux-gnu"@)
    } else if os == "macos"@ && arch == "x86_64"@ {
        Some("x86_64-apple-darwin"@)
    } else if os == "macos"@ && arch == "aarch64"@ {
        Some("aarch64-apple-darwin"@)
    } else if os == "windows"@ && arch == "x86_64"@ {
        Some("x86_64-pc-windows-msvc"@)
    } else {
        None
    }
}

/// No binary is published for this platform.
pub struct UnsupportedPlatform {
    pub os: String,
    pub arch: String,
}

impl UnsupportedPlatform {
    /// The message shown for the error.
    pub fn message(&self) -> (r: String)
        ensures
            r@ == "no prebuilt binary for "@ + self.os@ + "/"@ + self.arch@,
    {
        let mut v: Vec<char> = Vec::new();
        push_str(&mut v, "no prebuilt binary for ");
        push_str(&mut v, self.os.as_str());
        push_str(&mut v, "/");
        push_str(&mut v, self.arch.as_str());
        string_of(v.as_slice())
    }
}

/// The target triple of the release binary for this platform.
pub fn detect_target(os: &str, arch: &str) -> (r: Result<&'static str, UnsupportedPlatform>)
    ensures
        r matches Ok(t) ==> target_of(os@, arch@) == Some(t@),
        r matches Err(e) ==> target_of(os@, arch@) is None && e.os@ == os@ && e.arch@ == arch@,
{
    let linux = same_text(os, "linux");
    let macos = same_text(os, "macos");
    let windows = same_text(os, "windows");
    let x86 = same_text(arch, "x86_64");
    let arm = same_text(arch, "aarch64");
    if linux && x86 {
        Ok("x86_64-unknown-linux-gnu")
    } else if linux && arm {
        Ok("aarch64-unknown-linux-gnu")
    } else if macos && x86 {
        Ok("x86_64-apple-darwin")
    } else if macos && arm {
        Ok("aarch64-apple-darwin")
    } else if windows && x86 {
        Ok("x86_64-pc-windows-msvc")
    } else {
        Err(UnsupportedPlatform { os: os.to_owned(), arch: arch.to_owned() })
    }
}

/// The version a release tag names: the tag without its leading `v`s.
pub fn release_version(tag: &str) -> (r: String)
    ensures
        r@ == strip_start(tag@, 'v'),
{
    let tc = chars_of(tag);
    let v = strip_start_chars(tc.as_slice(), 'v');
    string_of(v.as_slice())
}

/// The file name of the release binary: `rlwy-v{version}-{target}` with
/// `.exe` on Windows.
pub open spec fn asset_name_text(version: Seq<char>, target: Seq<char>, windows: bool) -> Seq<
    char,
> {
    "rlwy-v"@ + version + "-"@ + target + if windows {
        ".exe"@
    } else {
        Seq::empty()
    }
}

/// The file name of the release binary.
pub fn asset_name(version: &str, target: &str, windows: bool) -> (r: String)
    ensures
        r@ == asset_name_text(version@, target@, windows),
{
    let mut v: Vec<char> = Vec::new();
    push_str(&mut v, "rlwy-v");
    push_str(&mut v, version);
    push_str(&mut v, "-");
    push_str(&mut v, target);
    if windows {
        push_str(&mut v, ".exe");
    } else {
        assert(v@ =~= v@ + Seq::<char>::empty());
    }
    string_of(v.as_slice())
}

/// Where the release binary is downloaded from: `{base}/v{version}/{asset}`.
pub fn download_url(version: &str, asset: &str) -> (r: String)
    ensures
        r@ == DOWNLOAD_BASE@ + "/v"@ + version@ + "/"@ + asset@,
{
    let mut v: Vec<char> = Vec::new();
    push_str(&mut v, DOWNLOAD_BASE);
    push_str(&mut v, "/v");
    push_str(&mut v, version);
    push_str(&mut v, "/");
    push_str(&mut v, asset);
    string_of(v.as_slice())
}

/// The release notes shown after an upgrade: the lines of the trimmed
/// release body, unless there is no body or it is blank.
pub open spec fn release_notes_text(body: Option<Seq<char>>) -> Option<Seq<Seq<char>>> {
    match body {
        Some(b) => if trim(b).len() > 0 {
            Some(lines(trim(b)))
        } else {
            None
        },
        None => None,
    }
}

/// The release notes shown after an upgrade.
pub fn release_notes(body: Option<&str>) -> (r: Option<Vec<String>>)
    ensures
        r matches Some(ls) ==> release_notes_text(opt_seq(body)) == Some(views(ls@)),
        r is None <==> release_notes_text(opt_seq(body)) is None,
{
    match body {
        Some(b) => {
            let bc = chars_of(b);
            let t = trim_chars(bc.as_slice());
            if t.len() > 0 {
                Some(lines_of(t.as_slice()))
            } else {
                None
            }
        },
        None => None,
    }
}

} // verus!
