//! The decisions of the self-upgrade: which release to ask for, which
//! platform build to take, and what to say when it is missing.
use vstd::prelude::*;
use vstd::string::*;

use crate::fspath::string_views;
use crate::text::{eq_ignore_ascii_case, eq_ignore_ascii_case_spec, owned, push_char, push_str, same_text, trim, trimmed};

verus! {

/// How the upgrade command runs.
#[derive(Clone, Debug)]
pub struct UpgradeOptions {
    /// The release asked for, or the latest when absent.
    pub requested_version: Option<String>,
}

/// The packaging of a release build.
#[derive(Clone, Copy, Debug, PartialEq, Eq, Structural)]
pub enum ArchiveKind {
    TarGz,
    Zip,
}

/// The file extension of an archive kind.
pub open spec fn extension_spec(kind: ArchiveKind) -> Seq<char> {
    match kind {
        ArchiveKind::TarGz => "tar.gz"@,
        ArchiveKind::Zip => "zip"@,
    }
}

impl ArchiveKind {
    /// The file extension of the archive.
    pub fn extension(self) -> (r: &'static str)
        ensures
            r@ == extension_spec(self),
    {
        proof {
            reveal_strlit("tar.gz");
            reveal_strlit("zip");
        }
        match self {
            ArchiveKind::TarGz => "tar.gz",
            ArchiveKind::Zip => "zip",
        }
    }
}

/// A platform that release builds exist for.
#[derive(Clone, Copy, Debug, PartialEq, Eq)]
pub struct PlatformTarget {
    pub triple: &'static str,
    pub archive_kind: ArchiveKind,
}

/// The build for an operating system and architecture, as named by Rust
/// (`std::env::consts::OS` and `ARCH`), when one is published: x86_64 and
/// aarch64 for Linux and macOS as `.tar.gz`, x86_64 for Windows as `.zip`.
pub open spec fn target_for(os: Seq<char>, arch: Seq<char>) -> Option<(Seq<char>, ArchiveKind)> {
    if os == "linux"@ && arch == "x86_64"@ {
        Some(("x86_64-unknown-linux-gnu"@, ArchiveKind::TarGz))
    } else if os == "linux"@ && arch == "aarch64"@ {
        Some(("aarch64-unknown-linux-gnu"@, ArchiveKind::TarGz))
    } else if os == "macos"@ && arch == "x86_64"@ {
        Some(("x86_64-apple-darwin"@, ArchiveKind::TarGz))
    } else if os == "macos"@ && arch == "aarch64"@ {
        Some(("aarch64-apple-darwin"@, ArchiveKind::TarGz))
    } else if os == "windows"@ && arch == "x86_64"@ {
        Some(("x86_64-pc-windows-msvc"@, ArchiveKind::Zip))
    } else {
        None
    }
}

/// The name of the release asset for a tag and a platform.
pub open spec fn asset_name_spec(tag: Seq<char>, triple: Seq<char>, kind: ArchiveKind) -> Seq<char> {
    "reposweep-"@ + tag + "-"@ + triple + "."@ + extension_spec(kind)
}

impl PlatformTarget {
    /// The build for `os` and `arch`, or the message that none is
    /// published for them.
    pub fn detect(os: &str, arch: &str) -> (r: Result<PlatformTarget, String>)
        ensures
            match target_for(os@, arch@) {
                Some((triple, kind)) => r matches Ok(t) && t.triple@ == triple && t.archive_kind
                    == kind,
                None => r matches Err(m) && m@ == "`reposweep upgrade` is not available for "@
                    + arch@ + " on "@ + os@ + " yet."@,
            },
    {
        proof {
            reveal_strlit("linux");
            reveal_strlit("macos");
            reveal_strlit("windows");
            reveal_strlit("x86_64");
            reveal_strlit("aarch64");
        }
        let linux = same_text(os, "linux");
        let macos = same_text(os, "macos");
        let windows = same_text(os, "windows");
        let x86 = same_text(arch, "x86_64");
        let arm = same_text(arch, "aarch64");
        if linux && x86 {
            Ok(PlatformTarget { triple: "x86_64-unknown-linux-gnu", archive_kind: ArchiveKind::TarGz })
        } else if linux && arm {
            Ok(PlatformTarget { triple: "aarch64-unknown-linux-gnu", archive_kind: ArchiveKind::TarGz })
        } else if macos && x86 {
            Ok(PlatformTarget { triple: "x86_64-apple-darwin", archive_kind: ArchiveKind::TarGz })
        } else if macos && arm {
            Ok(PlatformTarget { triple: "aarch64-apple-darwin", archive_kind: ArchiveKind::TarGz })
        } else if windows && x86 {
            Ok(PlatformTarget { triple: "x86_64-pc-windows-msvc", archive_kind: ArchiveKind::Zip })
        } else {
            let mut message = owned("`reposweep upgrade` is not available for ");
            push_str(&mut message, arch);
            push_str(&mut message, " on ");
            push_str(&mut message, os);
            push_str(&mut message, " yet.");
            Err(message)
        }
    }

    /// The name of this platform's asset in the release `version_tag`:
    /// `reposweep-{tag}-{triple}.{extension}`.
    pub fn asset_name(self, version_tag: &str) -> (r: String)
        ensures
            r@ == asset_name_spec(version_tag@, self.triple@, self.archive_kind),
    {
        let mut name = owned("reposweep-");
        push_str(&mut name, version_tag);
        push_str(&mut name, "-");
        push_str(&mut name, self.triple);
        push_str(&mut name, ".");
        push_str(&mut name, self.archive_kind.extension());
        name
    }
}

/// The release tag asked for by `input`: none for nothing, a blank, or
/// `latest` in any ASCII case; otherwise the trimmed text, with a `v` put in
/// front when it does not start with one.
pub open spec fn requested_tag_spec(input: Option<Seq<char>>) -> Option<Seq<char>> {
    match input {
        None => None,
        Some(raw) => {
            let t = trimmed(raw);
            if t.len() == 0 || eq_ignore_ascii_case_spec(t, "latest"@) {
                None
            } else if t[0] == 'v' {
                Some(t)
            } else {
                Some(seq!['v'] + t)
            }
        },
    }
}

/// The release tag asked for, as `requested_tag_spec` says.
pub fn normalize_requested_tag(input: Option<&str>) -> (r: Option<String>)
    ensures
        match r {
            Some(s) => requested_tag_spec(
                match input {
                    Some(i) => Some(i@),
                    None => None,
                },
            ) == Some(s@),
            None => requested_tag_spec(
                match input {
                    Some(i) => Some(i@),
                    None => None,
                },
            ) is None,
        },
{
    let raw = match input {
        Some(s) => s,
        None => {
            return None;
        },
    };
    let trimmed_text = trim(raw);
    let t = trimmed_text.as_str();
    if t.unicode_len() == 0 || eq_ignore_ascii_case(t, "latest") {
        return None;
    }
    if t.get_char(0) == 'v' {
        Some(trimmed_text)
    } else {
        let mut tagged = String::new();
        push_char(&mut tagged, 'v');
        push_str(&mut tagged, t);
        assert(tagged@ =~= seq!['v'] + t@);
        Some(tagged)
    }
}

/// Where the release is described: the release with the requested tag, or
/// the latest one.
pub fn release_url(repo: &str, requested_tag: Option<&str>) -> (r: String)
    ensures
        r@ == match requested_tag {
            Some(tag) => "https://api.github.com/repos/"@ + repo@ + "/releases/tags/"@ + tag@,
            None => "https://api.github.com/repos/"@ + repo@ + "/releases/latest"@,
        },
{
    let mut url = owned("https://api.github.com/repos/");
    push_str(&mut url, repo);
    match requested_tag {
        Some(tag) => {
            push_str(&mut url, "/releases/tags/");
            push_str(&mut url, tag);
        },
        None => push_str(&mut url, "/releases/latest"),
    }
    url
}

/// The position of the first asset named `expected`.
pub fn find_asset(names: &Vec<String>, expected: &str) -> (r: Option<usize>)
    ensures
        match r {
            Some(i) => i < names@.len() && names@[i as int]@ == expected@ && forall|j: int|
                0 <= j < i ==> names@[j]@ != expected@,
            None => forall|j: int| 0 <= j < names@.len() ==> names@[j]@ != expected@,
        },
{
    let n = names.len();
    let mut i: usize = 0;
    while i < n
        invariant
            n == names@.len(),
            i <= n,
            forall|j: int| 0 <= j < i ==> names@[j]@ != expected@,
        decreases n - i,
    {
        if same_text(names[i].as_str(), expected) {
            return Some(i);
        }
        i = i + 1;
    }
    None
}

/// `parts` joined with `", "`.
pub open spec fn joined(parts: Seq<Seq<char>>) -> Seq<char>
    decreases parts.len(),
{
    if parts.len() == 0 {
        Seq::empty()
    } else if parts.len() == 1 {
        parts[0]
    } else {
        joined(parts.drop_last()) + ", "@ + parts.last()
    }
}

/// The message when a release lacks the asset for this platform, listing
/// the assets it has.
pub fn missing_asset_message(tag: &str, expected: &str, triple: &str, names: &Vec<String>) -> (r:
    String)
    ensures
        r@ == "Release "@ + tag@ + " does not include "@ + expected@ + " for "@ + triple@
            + ". Available assets: "@ + joined(string_views(names@)),
{
    let mut message = owned("Release ");
    push_str(&mut message, tag);
    push_str(&mut message, " does not include ");
    push_str(&mut message, expected);
    push_str(&mut message, " for ");
    push_str(&mut message, triple);
    push_str(&mut message, ". Available assets: ");
    let ghost head = message@;
    let n = names.len();
    let mut i: usize = 0;
    while i < n
        invariant
            n == names@.len(),
            i <= n,
            message@ == head + joined(string_views(names@).take(i as int)),
        decreases n - i,
    {
        let ghost before = message@;
        if i > 0 {
            push_str(&mut message, ", ");
        }
        push_str(&mut message, names[i].as_str());
        proof {
            let v = string_views(names@);
            assert(v.take(i + 1).drop_last() =~= v.take(i as int));
            if i == 0 {
                assert(joined(v.take(1)) == v.take(1)[0]);
                assert(message@ =~= head + joined(v.take(1)));
            } else {
                assert(message@ =~= head + joined(v.take(i + 1)));
            }
        }
        i = i + 1;
    }
    assert(string_views(names@).take(n as int) =~= string_views(names@));
    message
}

} // verus!
