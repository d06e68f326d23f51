//! Path Locator: the search order for a Typora installation.
//!
//! Reading the Windows registry and testing whether a file exists are
//! the surrounding binary's job; it feeds the answers to the decision
//! functions here. The decisions themselves — which candidate paths are
//! tried, in which order, and which answer wins — are verified:
//!
//! - a registry value takes precedence over the fixed list, machine-wide
//!   registry entries over per-user ones;
//! - within the fixed list, machine-wide directories come before
//!   per-user ones, and the first candidate that exists on disk wins;
//! - on platforms without a detection strategy the locator is absent.

use vstd::prelude::*;

use crate::launch::Platform;

verus! {

/// Strips every trailing backslash from a registry directory value.
pub open spec fn trim_trailing_backslashes(s: Seq<char>) -> Seq<char>
    decreases s.len(),
{
    if s.len() > 0 && s[s.len() - 1] == '\\' {
        trim_trailing_backslashes(s.drop_last())
    } else {
        s
    }
}

/// The executable path derived from a registry `Path` directory value:
/// the directory, trailing backslashes stripped, with the fixed
/// executable filename appended.
pub open spec fn registry_join_spec(dir: Seq<char>) -> Seq<char> {
    trim_trailing_backslashes(dir) + "\\Typora.exe"@
}

/// What the registry lookup decides, given the values the binary read:
/// the machine-wide default value wins outright; otherwise a machine-wide
/// `Path`-derived executable that exists on disk; otherwise the per-user
/// default value.
pub open spec fn registry_choice_spec(
    machine_default: Option<Seq<char>>,
    machine_joined: Option<Seq<char>>,
    machine_joined_exists: bool,
    user_default: Option<Seq<char>>,
) -> Option<Seq<char>> {
    if machine_default is Some {
        machine_default
    } else if machine_joined is Some && machine_joined_exists {
        machine_joined
    } else {
        user_default
    }
}

/// The fixed list of conventional install locations, in the order they
/// are tried: machine-wide program directory, 32-bit program directory,
/// per-user local programs, per-user local application data. macOS has
/// one bundle path; other platforms have none.
pub open spec fn fixed_candidates_spec(
    p: Platform,
    user_profile: Seq<char>,
    local_app_data: Seq<char>,
) -> Seq<Seq<char>> {
    match p {
        Platform::Windows => seq![
            "C:\\Program Files\\Typora\\Typora.exe"@,
            "C:\\Program Files (x86)\\Typora\\Typora.exe"@,
            user_profile + "\\AppData\\Local\\Programs\\Typora\\Typora.exe"@,
            local_app_data + "\\Typora\\Typora.exe"@,
        ],
        Platform::MacOs => seq!["/Applications/Typora.app/Contents/MacOS/Typora"@],
        Platform::Linux => Seq::empty(),
        Platform::Other => Seq::empty(),
    }
}

/// The first candidate whose existence flag is set, or `None`.
pub open spec fn first_existing(cands: Seq<Seq<char>>, exists: Seq<bool>) -> Option<Seq<char>>
    decreases cands.len(),
{
    if cands.len() == 0 {
        None
    } else if exists[0] {
        Some(cands[0])
    } else {
        first_existing(cands.drop_first(), exists.drop_first())
    }
}

/// The locator's overall answer: a registry-derived path that exists on
/// disk wins; otherwise the first fixed candidate that exists.
pub open spec fn auto_detect_spec(
    registry: Option<Seq<char>>,
    registry_exists: bool,
    cands: Seq<Seq<char>>,
    exists: Seq<bool>,
) -> Option<Seq<char>> {
    if registry is Some && registry_exists {
        registry
    } else {
        first_existing(cands, exists)
    }
}

/// Builds the executable path from a registry `Path` directory value.
pub fn registry_dir_join(dir: &str) -> (r: String)
    ensures
        r@ == registry_join_spec(dir@),
{
    let n = dir.unicode_len();
    let mut end: usize = n;
    proof {
        assert(dir@.subrange(0, n as int) =~= dir@);
    }
    while end > 0 && dir.get_char(end - 1) == '\\'
        invariant
            end <= n,
            n == dir@.len(),
            trim_trailing_backslashes(dir@) == trim_trailing_backslashes(
                dir@.subrange(0, end as int),
            ),
        decreases end,
    {
        proof {
            assert(dir@.subrange(0, end as int).drop_last() =~= dir@.subrange(0, end - 1));
        }
        end = end - 1;
    }
    proof {
        if end == 0 {
            assert(dir@.subrange(0, 0) =~= Seq::<char>::empty());
        }
        assert(trim_trailing_backslashes(dir@.subrange(0, end as int)) == dir@.subrange(
            0,
            end as int,
        ));
    }
    let stem = dir.substring_char(0, end);
    let mut r = String::from_str(stem);
    r.append("\\Typora.exe");
    r
}

/// Decides the registry lookup from the values the binary read.
/// `machine_joined` is the `Path`-derived executable built by
/// `registry_dir_join`; `machine_joined_exists` is its on-disk
/// existence.
pub fn registry_choice(
    machine_default: Option<String>,
    machine_joined: Option<String>,
    machine_joined_exists: bool,
    user_default: Option<String>,
) -> (r: Option<String>)
    ensures
        r.deep_view() == registry_choice_spec(
            machine_default.deep_view(),
            machine_joined.deep_view(),
            machine_joined_exists,
            user_default.deep_view(),
        ),
{
    if let Some(p) = machine_default {
        return Some(p);
    }
    if machine_joined_exists {
        if let Some(p) = machine_joined {
            return Some(p);
        }
    }
    user_default
}

/// Builds the fixed candidate list for the platform, from the user's
/// profile and local-application-data directories.
pub fn fixed_candidates(platform: Platform, user_profile: &str, local_app_data: &str) -> (r: Vec<
    String,
>)
    ensures
        r.deep_view() == fixed_candidates_spec(platform, user_profile@, local_app_data@),
{
    let mut r: Vec<String> = Vec::new();
    match platform {
        Platform::Windows => {
            r.push(String::from_str("C:\\Program Files\\Typora\\Typora.exe"));
            r.push(String::from_str("C:\\Program Files (x86)\\Typora\\Typora.exe"));
            r.push(
                String::from_str(user_profile).concat(
                    "\\AppData\\Local\\Programs\\Typora\\Typora.exe",
                ),
            );
            r.push(String::from_str(local_app_data).concat("\\Typora\\Typora.exe"));
        },
        Platform::MacOs => {
            r.push(String::from_str("/Applications/Typora.app/Contents/MacOS/Typora"));
        },
        Platform::Linux => {},
        Platform::Other => {},
    }
    proof {
        assert(r.deep_view() =~~= fixed_candidates_spec(platform, user_profile@, local_app_data@));
    }
    r
}

/// The locator's overall decision, from the registry answer and the
/// existence flags the binary gathered for the candidates (`exists[i]`
/// answers for `candidates[i]`). Returns the first path that exists,
/// registry results first, or `None` when no candidate exists.
pub fn auto_detect_typora_path(
    registry: &Option<String>,
    registry_exists: bool,
    candidates: &Vec<String>,
    exists: &Vec<bool>,
) -> (r: Option<String>)
    requires
        candidates@.len() == exists@.len(),
    ensures
        r.deep_view() == auto_detect_spec(
            registry.deep_view(),
            registry_exists,
            candidates.deep_view(),
            exists@,
        ),
{
    match registry {
        Some(p) => {
            if registry_exists {
                return Some(p.clone());
            }
        },
        None => {},
    }
    assert(!(registry.deep_view() is Some && registry_exists));
    let n = candidates.len();
    let mut i: usize = 0;
    proof {
        assert(candidates.deep_view().skip(0) =~= candidates.deep_view());
        assert(exists@.skip(0) =~= exists@);
    }
    while i < n
        invariant
            i <= n,
            n == candidates@.len(),
            n == exists@.len(),
            !(registry.deep_view() is Some && registry_exists),
            first_existing(candidates.deep_view(), exists@) == first_existing(
                candidates.deep_view().skip(i as int),
                exists@.skip(i as int),
            ),
        decreases n - i,
    {
        proof {
            assert(candidates.deep_view().skip(i as int).len() > 0);
            assert(candidates.deep_view().skip(i as int)[0] == candidates@[i as int]@);
            assert(exists@.skip(i as int)[0] == exists@[i as int]);
        }
        if exists[i] {
            let c = candidates[i].clone();
            proof {
                assert(first_existing(
                    candidates.deep_view().skip(i as int),
                    exists@.skip(i as int),
                ) == Some(candidates@[i as int]@));
                assert(c@ == candidates@[i as int]@);
                assert(Some(c).deep_view() == Some(c@));
            }
            return Some(c);
        }
        proof {
            assert(candidates.deep_view().skip(i as int).drop_first() =~= candidates.deep_view()
                .skip(i + 1));
            assert(exists@.skip(i as int).drop_first() =~= exists@.skip(i + 1));
        }
        i = i + 1;
    }
    proof {
        assert(candidates.deep_view().skip(n as int).len() == 0);
    }
    None
}

/// The locator is a pure decision and leaves registry and filesystem
/// untouched: two runs that see the same registry answer and the same
/// existence flags return the identical result.
pub proof fn lemma_auto_detect_idempotent(
    registry: Option<Seq<char>>,
    registry_exists: bool,
    cands: Seq<Seq<char>>,
    exists: Seq<bool>,
    registry2: Option<Seq<char>>,
    registry_exists2: bool,
    cands2: Seq<Seq<char>>,
    exists2: Seq<bool>,
)
    requires
        registry == registry2,
        registry_exists == registry_exists2,
        cands == cands2,
        exists == exists2,
    ensures
        auto_detect_spec(registry, registry_exists, cands, exists) == auto_detect_spec(
            registry2,
            registry_exists2,
            cands2,
            exists2,
        ),
{
}

/// Ordering: whenever the registry yields a path that exists on disk,
/// the locator returns it, whatever fixed-list candidates also exist.
pub proof fn lemma_registry_precedence(p: Seq<char>, cands: Seq<Seq<char>>, exists: Seq<bool>)
    ensures
        auto_detect_spec(Some(p), true, cands, exists) == Some(p),
{
}

/// Ordering within the fixed list: the candidate returned is the first
/// one that exists, earlier candidates in the list shadowing later
/// ones.
pub proof fn lemma_first_existing_order(cands: Seq<Seq<char>>, exists: Seq<bool>, i: int)
    requires
        cands.len() == exists.len(),
        0 <= i < exists.len(),
        exists[i],
        forall|j: int| 0 <= j < i ==> !exists[j],
    ensures
        first_existing(cands, exists) == Some(cands[i]),
    decreases i,
{
    if i == 0 {
    } else {
        assert(!exists[0]);
        assert(cands.drop_first().len() == exists.drop_first().len());
        assert(exists.drop_first()[i - 1] == exists[i]);
        assert(forall|j: int| 0 <= j < i - 1 ==> !exists.drop_first()[j]);
        lemma_first_existing_order(cands.drop_first(), exists.drop_first(), i - 1);
        assert(cands.drop_first()[i - 1] == cands[i]);
    }
}

} // verus!
