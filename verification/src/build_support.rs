use vstd::prelude::*;
use crate::text::{chars_of, push_str};

verus! {

/// `c` with `A`..`Z` turned into `a`..`z` (`char::to_ascii_lowercase`).
pub open spec fn ascii_lower(c: char) -> char {
    if 'A' <= c <= 'Z' {
        ((c as u32) + 32) as char
    } else {
        c
    }
}

/// Whether `a` and `b` are equal up to ASCII case (`eq_ignore_ascii_case`).
pub open spec fn eq_ignore_ascii_case(a: Seq<char>, b: Seq<char>) -> bool {
    a.len() == b.len() && forall|i: int| 0 <= i < a.len() ==> ascii_lower(#[trigger] a[i]) == ascii_lower(b[i])
}

/// Whether `pattern` occurs in `s` starting at position `i`.
pub open spec fn occurs_at(s: Seq<char>, pattern: Seq<char>, i: int) -> bool {
    0 <= i && i + pattern.len() <= s.len() && s.subrange(i, i + pattern.len()) == pattern
}

/// Whether `pattern` occurs anywhere in `s`.
pub open spec fn contains_str(s: Seq<char>, pattern: Seq<char>) -> bool {
    exists|i: int| #[trigger] occurs_at(s, pattern, i)
}

/// The extension of a file name, as `Path::extension` finds it: what follows
/// the last `.`, unless there is no `.`, the only `.` starts the name, or the
/// name is `..`.
pub open spec fn extension_of(name: Seq<char>) -> Option<Seq<char>> {
    if name == seq!['.', '.'] {
        None
    } else if exists|k: int| 0 <= k < name.len() && name[k] == '.' {
        let k = choose|k: int|
            0 <= k < name.len() && name[k] == '.' && forall|j: int| k < j < name.len() ==> name[j] != '.';
        if k == 0 {
            None
        } else {
            Some(name.skip(k + 1))
        }
    } else {
        None
    }
}

fn lower(c: char) -> (r: char)
    ensures
        r == ascii_lower(c),
{
    if 'A' <= c && c <= 'Z' {
        ((c as u8) + 32) as char
    } else {
        c
    }
}

/// Whether `a[from..]` and `b` are equal up to ASCII case.
fn eq_ignore_case_from(a: &Vec<char>, from: usize, b: &Vec<char>) -> (r: bool)
    requires
        from <= a.len(),
    ensures
        r == eq_ignore_ascii_case(a@.skip(from as int), b@),
{
    if a.len() - from != b.len() {
        return false;
    }
    let mut i: usize = 0;
    while i < b.len()
        invariant
            a.len() - from == b.len(),
            from <= a.len(),
            i <= b.len(),
            forall|k: int| 0 <= k < i ==> ascii_lower(#[trigger] a@.skip(from as int)[k]) == ascii_lower(b@[k]),
        decreases b.len() - i,
    {
        assert(a@.skip(from as int)[i as int] == a@[from + i]);
        if lower(a[from + i]) != lower(b[i]) {
            return false;
        }
        i += 1;
    }
    true
}

fn occurs_at_exec(s: &Vec<char>, pattern: &Vec<char>, i: usize) -> (r: bool)
    ensures
        r == occurs_at(s@, pattern@, i as int),
{
    if i > s.len() || s.len() - i < pattern.len() {
        return false;
    }
    let mut k: usize = 0;
    while k < pattern.len()
        invariant
            i + pattern.len() <= s.len(),
            k <= pattern.len(),
            forall|m: int| 0 <= m < k ==> s@[i + m] == pattern@[m],
        decreases pattern.len() - k,
    {
        if s[i + k] != pattern[k] {
            assert(s@.subrange(i as int, i + pattern.len())[k as int] != pattern@[k as int]);
            return false;
        }
        k += 1;
    }
    assert(s@.subrange(i as int, i + pattern.len()) =~= pattern@);
    true
}

fn contains_exec(s: &Vec<char>, pattern: &Vec<char>) -> (r: bool)
    ensures
        r == contains_str(s@, pattern@),
{
    let mut i: usize = 0;
    while i < s.len()
        invariant
            i <= s.len(),
            forall|m: int| 0 <= m < i ==> !occurs_at(s@, pattern@, m),
        decreases s.len() - i,
    {
        if occurs_at_exec(s, pattern, i) {
            return true;
        }
        i += 1;
    }
    if occurs_at_exec(s, pattern, s.len()) {
        return true;
    }
    assert forall|m: int| !occurs_at(s@, pattern@, m) by {
        if 0 <= m < s.len() {
        }
    }
    false
}

fn extension_start(name: &Vec<char>) -> (r: Option<usize>)
    ensures
        match r {
            Some(k) => k < name@.len() && name@[k as int] == '.' && forall|j: int| k < j < name@.len() ==> name@[j] != '.',
            None => forall|j: int| 0 <= j < name@.len() ==> name@[j] != '.',
        },
{
    let mut i: usize = name.len();
    while i > 0
        invariant
            i <= name.len(),
            forall|j: int| i <= j < name@.len() ==> name@[j] != '.',
        decreases i,
    {
        if name[i - 1] == '.' {
            return Some(i - 1);
        }
        i -= 1;
    }
    None
}

/// Whether a file is part of the Windows App Runtime payload that ships beside
/// the executable: `RestartAgent.exe` or `map.html` (in any ASCII case), or a
/// file whose extension is, in any ASCII case, one of `dll`, `pri`, `winmd`,
/// `xaml`, `xbf`, `mui`, `png` or `json`. `file_name` is `None` for a path
/// without a final name.
pub fn is_runtime_payload_file(file_name: Option<&str>) -> (r: bool)
    ensures
        r == match file_name {
            None => false,
            Some(n) => payload_name(n@),
        },
{
    let name = match file_name {
        None => return false,
        Some(n) => chars_of(n),
    };
    proof {
        reveal_strlit("RestartAgent.exe");
        reveal_strlit("map.html");
        reveal_strlit("dll");
        reveal_strlit("pri");
        reveal_strlit("winmd");
        reveal_strlit("xaml");
        reveal_strlit("xbf");
        reveal_strlit("mui");
        reveal_strlit("png");
        reveal_strlit("json");
        assert(name@.skip(0) == name@);
    }
    if eq_ignore_case_from(&name, 0, &chars_of("RestartAgent.exe"))
        || eq_ignore_case_from(&name, 0, &chars_of("map.html")) {
        return true;
    }
    let is_dot_dot = name.len() == 2 && name[0] == '.' && name[1] == '.';
    if is_dot_dot {
        assert(name@ == seq!['.', '.']);
        return false;
    }
    assert(name@ != seq!['.', '.']);
    match extension_start(&name) {
        None => false,
        Some(k) => {
            proof {
                let c = choose|c: int|
                    0 <= c < name@.len() && name@[c] == '.' && forall|j: int| c < j < name@.len() ==> name@[j] != '.';
                assert(c == k as int) by {
                    if c < k {
                        assert(name@[k as int] != '.');
                    } else if c > k {
                        assert(name@[c] != '.');
                    }
                }
            }
            if k == 0 {
                false
            } else {
                let from = k + 1;
                eq_ignore_case_from(&name, from, &chars_of("dll"))
                    || eq_ignore_case_from(&name, from, &chars_of("pri"))
                    || eq_ignore_case_from(&name, from, &chars_of("winmd"))
                    || eq_ignore_case_from(&name, from, &chars_of("xaml"))
                    || eq_ignore_case_from(&name, from, &chars_of("xbf"))
                    || eq_ignore_case_from(&name, from, &chars_of("mui"))
                    || eq_ignore_case_from(&name, from, &chars_of("png"))
                    || eq_ignore_case_from(&name, from, &chars_of("json"))
            }
        },
    }
}

/// The payload rule of [`is_runtime_payload_file`] on a file name.
pub open spec fn payload_name(n: Seq<char>) -> bool {
    eq_ignore_ascii_case(n, "RestartAgent.exe"@) || eq_ignore_ascii_case(n, "map.html"@)
        || match extension_of(n) {
        Some(e) => eq_ignore_ascii_case(e, "dll"@) || eq_ignore_ascii_case(e, "pri"@)
            || eq_ignore_ascii_case(e, "winmd"@) || eq_ignore_ascii_case(e, "xaml"@)
            || eq_ignore_ascii_case(e, "xbf"@) || eq_ignore_ascii_case(e, "mui"@)
            || eq_ignore_ascii_case(e, "png"@) || eq_ignore_ascii_case(e, "json"@),
        None => false,
    }
}

/// Whether a file of the runtime package's MSIX folder is the framework
/// package: named `Microsoft.WindowsAppRuntime.*.msix` and not one of the
/// `DDLM`, `Main` or `Singleton` packages.
pub open spec fn framework_msix_name(n: Seq<char>) -> bool {
    &&& occurs_at(n, "Microsoft.WindowsAppRuntime."@, 0)
    &&& !contains_str(n, "DDLM"@)
    &&& !contains_str(n, "Main"@)
    &&& !contains_str(n, "Singleton"@)
    &&& n.len() >= 5 && occurs_at(n, ".msix"@, n.len() - 5)
}

/// Picks out the framework MSIX among the runtime package's files.
pub fn is_framework_msix(file_name: &str) -> (r: bool)
    ensures
        r == framework_msix_name(file_name@),
{
    let name = chars_of(file_name);
    let prefix = chars_of("Microsoft.WindowsAppRuntime.");
    let suffix = chars_of(".msix");
    occurs_at_exec(&name, &prefix, 0) && !contains_exec(&name, &chars_of("DDLM"))
        && !contains_exec(&name, &chars_of("Main")) && !contains_exec(&name, &chars_of("Singleton"))
        && name.len() >= 5 && occurs_at_exec(&name, &suffix, name.len() - 5)
}

/// The architecture folder name the Windows App SDK uses for a Rust target
/// architecture, if it supports it.
pub fn target_arch(arch: &str) -> (r: Option<&'static str>)
    ensures
        arch@ == "x86"@ ==> (r matches Some(a) && a@ == "x86"@),
        arch@ == "x86_64"@ ==> (r matches Some(a) && a@ == "x64"@),
        arch@ == "aarch64"@ ==> (r matches Some(a) && a@ == "arm64"@),
        arch@ != "x86"@ && arch@ != "x86_64"@ && arch@ != "aarch64"@ ==> r is None,
{
    proof {
        reveal_strlit("x86");
        reveal_strlit("x86_64");
        reveal_strlit("aarch64");
        reveal_strlit("x64");
        reveal_strlit("arm64");
        assert("aarch64"@.len() != "x86"@.len());
        assert("aarch64"@.len() != "x86_64"@.len());
        assert("x86_64"@.len() != "x86"@.len());
    }
    if crate::menu::str_eq(arch, "x86") {
        Some("x86")
    } else if crate::menu::str_eq(arch, "x86_64") {
        Some("x64")
    } else if crate::menu::str_eq(arch, "aarch64") {
        Some("arm64")
    } else {
        None
    }
}

/// The pinned Windows App SDK component packages: identifier and version.
pub open spec fn required_packages() -> Seq<(Seq<char>, Seq<char>)> {
    seq![
        ("Microsoft.WindowsAppSDK"@, "1.8.260529003"@),
        ("Microsoft.WindowsAppSDK.Runtime"@, "1.8.260529003"@),
        ("Microsoft.WindowsAppSDK.WinUI"@, "1.8.260528001"@),
        ("Microsoft.WindowsAppSDK.Foundation"@, "1.8.260527000"@),
        ("Microsoft.WindowsAppSDK.Base"@, "1.8.251216001"@),
        ("Microsoft.WindowsAppSDK.InteractiveExperiences"@, "1.8.260525001"@),
    ]
}

/// The pinned Windows App SDK component packages, in the order a package
/// root is checked: identifier and version, each a directory level.
pub fn packages() -> (v: Vec<(&'static str, &'static str)>)
    ensures
        v@.len() == required_packages().len(),
        forall|i: int| 0 <= i < v@.len() ==> (#[trigger] v@[i]).0@ == required_packages()[i].0 && v@[i].1@ == required_packages()[i].1,
{
    let mut v: Vec<(&'static str, &'static str)> = Vec::new();
    v.push(("Microsoft.WindowsAppSDK", "1.8.260529003"));
    v.push(("Microsoft.WindowsAppSDK.Runtime", "1.8.260529003"));
    v.push(("Microsoft.WindowsAppSDK.WinUI", "1.8.260528001"));
    v.push(("Microsoft.WindowsAppSDK.Foundation", "1.8.260527000"));
    v.push(("Microsoft.WindowsAppSDK.Base", "1.8.251216001"));
    v.push(("Microsoft.WindowsAppSDK.InteractiveExperiences", "1.8.260525001"));
    v
}

/// The package whose MSIX payload is staged beside the executable.
pub fn runtime_package() -> (p: (&'static str, &'static str))
    ensures
        p.0@ == required_packages()[1].0,
        p.1@ == required_packages()[1].1,
{
    ("Microsoft.WindowsAppSDK.Runtime", "1.8.260529003")
}

/// Whether a package root is complete: `present[i]` tells whether the
/// directory of the `i`-th package of [`packages`] exists under it.
pub fn package_root_is_complete(present: &Vec<bool>) -> (r: bool)
    requires
        present@.len() == required_packages().len(),
    ensures
        r == forall|i: int| 0 <= i < present@.len() ==> present@[i],
{
    let mut i: usize = 0;
    while i < present.len()
        invariant
            i <= present.len(),
            forall|k: int| 0 <= k < i ==> present@[k],
        decreases present.len() - i,
    {
        if !present[i] {
            return false;
        }
        i += 1;
    }
    true
}

/// The message of an incomplete package root.
pub open spec fn incomplete_message(root: Seq<char>) -> Seq<char> {
    "Windows App SDK packages are incomplete under "@ + root
}

/// Accepts a complete package root and describes an incomplete one (the
/// build then stops with that message).
pub fn validate_package_root(root: &str, present: &Vec<bool>) -> (r: Result<(), String>)
    requires
        present@.len() == required_packages().len(),
    ensures
        r is Ok <==> forall|i: int| 0 <= i < present@.len() ==> present@[i],
        r matches Err(m) ==> m@ == incomplete_message(root@),
{
    if package_root_is_complete(present) {
        Ok(())
    } else {
        let mut m = String::new();
        push_str(&mut m, "Windows App SDK packages are incomplete under ");
        push_str(&mut m, root);
        Err(m)
    }
}

/// Where the Windows App SDK packages of a build are taken from.
#[derive(Clone, Copy, Debug, PartialEq, Eq, Structural)]
pub enum PackageRootPlan {
    /// The root named by the build's configuration; it must be complete.
    Configured,
    /// The complete package folder of the development tree.
    Development,
    /// The per-user package cache, fetched first when `fetch`; it must be
    /// complete afterwards.
    Cache { fetch: bool },
}

/// Chooses the package root of a build: a configured root comes first; else
/// the development folder when it is complete; else the per-user cache,
/// which is fetched when it is incomplete.
pub fn package_root_plan(has_configured_root: bool, development_complete: bool, cache_complete: bool) -> (plan: PackageRootPlan)
    ensures
        plan == (if has_configured_root {
            PackageRootPlan::Configured
        } else if development_complete {
            PackageRootPlan::Development
        } else {
            PackageRootPlan::Cache { fetch: !cache_complete }
        }),
{
    if has_configured_root {
        PackageRootPlan::Configured
    } else if development_complete {
        PackageRootPlan::Development
    } else {
        PackageRootPlan::Cache { fetch: !cache_complete }
    }
}

} // verus!
