//! The decisions of the command-line front end: reading `--older-than`,
//! confirming a cleanup or an uninstall, and comparing install paths.
use vstd::prelude::*;
use vstd::string::*;

use crate::error::RepoSweepError;
use crate::fspath::FsPath;
use crate::text::{is_ascii_digit, owned, push_str, trim, trimmed};

verus! {

/// The value of a string of ASCII digits.
pub open spec fn digits_value(s: Seq<char>) -> nat
    decreases s.len(),
{
    if s.len() == 0 {
        0
    } else {
        digits_value(s.drop_last()) * 10 + ((s.last() as u32) - ('0' as u32)) as nat
    }
}

/// The number of ASCII digits at the start of `s`.
pub open spec fn digit_prefix_len(s: Seq<char>) -> int
    decreases s.len(),
{
    if s.len() == 0 || !is_ascii_digit(s[0]) {
        0
    } else {
        1 + digit_prefix_len(s.drop_first())
    }
}

/// The seconds in one unit of `--older-than`: hours, days, weeks, months of
/// thirty days, years of 365 days; a bare number counts days.
pub open spec fn unit_seconds(unit: Seq<char>) -> Option<nat> {
    if unit == "h"@ {
        Some(3600)
    } else if unit == "d"@ || unit == ""@ {
        Some(86400)
    } else if unit == "w"@ {
        Some(604800)
    } else if unit == "m"@ {
        Some(2592000)
    } else if unit == "y"@ {
        Some(31536000)
    } else {
        None
    }
}

/// What `--older-than` means, before the multiplication: nothing (absent
/// or blank), an invalid number, an unknown unit, or a number of units.
pub enum AgeSpec {
    Absent,
    InvalidValue,
    UnknownUnit,
    Units(nat, nat),
}

/// How `--older-than` is read: the text is trimmed; its leading ASCII
/// digits are the number, which must be present and fit in a `u64`; the
/// rest is the unit.
pub open spec fn age_spec(input: Option<Seq<char>>) -> AgeSpec {
    match input {
        None => AgeSpec::Absent,
        Some(raw) => {
            let t = trimmed(raw);
            let p = digit_prefix_len(t);
            if t.len() == 0 {
                AgeSpec::Absent
            } else if p == 0 || digits_value(t.take(p)) > u64::MAX {
                AgeSpec::InvalidValue
            } else {
                match unit_seconds(t.skip(p)) {
                    None => AgeSpec::UnknownUnit,
                    Some(u) => AgeSpec::Units(digits_value(t.take(p)), u),
                }
            }
        },
    }
}

/// Whether the minimum age that `input` asks for fits in a `u64` of
/// seconds; the others are not read.
pub open spec fn age_fits(input: Option<Seq<char>>) -> bool {
    match age_spec(input) {
        AgeSpec::Units(v, u) => v * u <= u64::MAX,
        _ => true,
    }
}

proof fn lemma_digit_prefix(s: Seq<char>, k: int)
    requires
        0 <= k <= s.len(),
        forall|j: int| 0 <= j < k ==> is_ascii_digit(#[trigger] s[j]),
        k < s.len() ==> !is_ascii_digit(s[k]),
    ensures
        digit_prefix_len(s) == k,
    decreases s.len(),
{
    if k > 0 {
        assert(is_ascii_digit(s[0]));
        assert forall|j: int| 0 <= j < k - 1 implies is_ascii_digit(#[trigger] s.drop_first()[j]) by {
            assert(s.drop_first()[j] == s[j + 1]);
        }
        if k - 1 < s.drop_first().len() {
            assert(s.drop_first()[k - 1] == s[k]);
        }
        lemma_digit_prefix(s.drop_first(), k - 1);
    }
}

proof fn lemma_digits_value_grows(s: Seq<char>, i: int)
    requires
        0 <= i <= s.len(),
        forall|j: int| 0 <= j < s.len() ==> is_ascii_digit(#[trigger] s[j]),
    ensures
        digits_value(s.take(i)) <= digits_value(s),
    decreases s.len() - i,
{
    if i < s.len() {
        lemma_digits_value_grows(s, i + 1);
        assert(s.take(i + 1).drop_last() =~= s.take(i));
    } else {
        assert(s.take(i) =~= s);
    }
}

/// The number and the unit of `--older-than`, without multiplying them.
fn age_parts(input: Option<&str>) -> (r: Result<Option<(u64, u64)>, RepoSweepError>)
    ensures
        match age_spec(
            match input {
                Some(s) => Some(s@),
                None => None,
            },
        ) {
            AgeSpec::Absent => r == Ok::<Option<(u64, u64)>, RepoSweepError>(None),
            AgeSpec::InvalidValue => r matches Err(RepoSweepError::InvalidRequest(m)) && m@
                == "invalid --older-than value: "@ + trimmed(input.unwrap()@),
            AgeSpec::UnknownUnit => r matches Err(RepoSweepError::InvalidRequest(m)) && m@
                == "unsupported duration unit in --older-than: "@ + trimmed(input.unwrap()@),
            AgeSpec::Units(v, u) => r matches Ok(Some((a, b))) && a == v && b == u,
        },
{
    let raw = match input {
        None => {
            return Ok(None);
        },
        Some(s) => s,
    };
    let t = trim(raw);
    let text = t.as_str();
    let n = text.unicode_len();
    if n == 0 {
        return Ok(None);
    }
    let mut p: usize = 0;
    let mut value: u64 = 0;
    let mut overflow = false;
    while p < n && '0' <= text.get_char(p) && text.get_char(p) <= '9'
        invariant
            n == text@.len(),
            p <= n,
            forall|j: int| 0 <= j < p ==> is_ascii_digit(#[trigger] text@[j]),
            !overflow ==> value == digits_value(text@.take(p as int)),
            overflow ==> digits_value(text@.take(p as int)) > u64::MAX,
        decreases n - p,
    {
        let c = text.get_char(p);
        let d: u64 = ((c as u32) - ('0' as u32)) as u64;
        let ghost pre = text@.take(p as int);
        let ghost post = text@.take(p + 1);
        assert(post.drop_last() =~= pre);
        assert(post.last() == c);
        if !overflow {
            match value.checked_mul(10) {
                Some(tens) => match tens.checked_add(d) {
                    Some(v) => {
                        value = v;
                    },
                    None => {
                        overflow = true;
                    },
                },
                None => {
                    overflow = true;
                },
            }
        }
        p = p + 1;
    }
    proof {
        lemma_digit_prefix(text@, p as int);
    }
    let mut message = String::new();
    if p == 0 || overflow {
        push_str(&mut message, "invalid --older-than value: ");
        push_str(&mut message, text);
        proof {
            reveal_strlit("invalid --older-than value: ");
        }
        return Err(RepoSweepError::InvalidRequest(message));
    }
    let unit = text.substring_char(p, n);
    assert(unit@ =~= text@.skip(p as int));
    proof {
        reveal_strlit("h");
        reveal_strlit("d");
        reveal_strlit("w");
        reveal_strlit("m");
        reveal_strlit("y");
        reveal_strlit("");
    }
    let seconds: u64 = if unit.unicode_len() == 0 {
        86400
    } else if unit.unicode_len() > 1 {
        0
    } else {
        let c = unit.get_char(0);
        if c == 'h' {
            3600
        } else if c == 'd' {
            86400
        } else if c == 'w' {
            604800
        } else if c == 'm' {
            2592000
        } else if c == 'y' {
            31536000
        } else {
            0
        }
    };
    proof {
        if unit@.len() == 1 {
            assert(unit@ =~= seq![unit@[0]]);
            assert("h"@ =~= seq!['h']);
            assert("d"@ =~= seq!['d']);
            assert("w"@ =~= seq!['w']);
            assert("m"@ =~= seq!['m']);
            assert("y"@ =~= seq!['y']);
        }
        if unit@.len() > 1 {
            assert(unit@.len() != "h"@.len());
            assert(unit@.len() != "d"@.len());
            assert(unit@.len() != "w"@.len());
            assert(unit@.len() != "m"@.len());
            assert(unit@.len() != "y"@.len());
            assert(unit@.len() != ""@.len());
        }
        if unit@.len() == 0 {
            assert(unit@ =~= ""@);
        }
        assert(seconds != 0 ==> unit_seconds(unit@) == Some(seconds as nat));
        assert(seconds == 0 ==> unit_seconds(unit@) is None);
    }
    if seconds == 0 {
        push_str(&mut message, "unsupported duration unit in --older-than: ");
        push_str(&mut message, text);
        proof {
            reveal_strlit("unsupported duration unit in --older-than: ");
        }
        return Err(RepoSweepError::InvalidRequest(message));
    }
    Ok(Some((value, seconds)))
}

/// Whether the minimum age asked for by `input` fits in a `u64` of seconds
/// (answers `true` for the inputs that are not read as a number of units).
pub fn age_filter_fits(input: Option<&str>) -> (r: bool)
    ensures
        r == age_fits(
            match input {
                Some(s) => Some(s@),
                None => None,
            },
        ),
{
    match age_parts(input) {
        Ok(Some((value, unit))) => value.checked_mul(unit).is_some(),
        _ => true,
    }
}

/// Reads `--older-than` as a minimum age in seconds: `None` when absent or
/// blank; for a number followed by `h`, `d`, `w`, `m`, `y` or nothing, that
/// many hours, days, weeks, 30-day months, 365-day years, or days. A
/// missing or too large number, or another unit, is refused.
pub fn parse_age_filter(input: Option<&str>) -> (r: Result<Option<u64>, RepoSweepError>)
    requires
        age_fits(
            match input {
                Some(s) => Some(s@),
                None => None,
            },
        ),
    ensures
        match age_spec(
            match input {
                Some(s) => Some(s@),
                None => None,
            },
        ) {
            AgeSpec::Absent => r == Ok::<Option<u64>, RepoSweepError>(None),
            AgeSpec::InvalidValue => r matches Err(RepoSweepError::InvalidRequest(m)) && m@
                == "invalid --older-than value: "@ + trimmed(input.unwrap()@),
            AgeSpec::UnknownUnit => r matches Err(RepoSweepError::InvalidRequest(m)) && m@
                == "unsupported duration unit in --older-than: "@ + trimmed(input.unwrap()@),
            AgeSpec::Units(v, u) => r == Ok::<Option<u64>, RepoSweepError>(Some((v * u) as u64)),
        },
{
    match age_parts(input) {
        Ok(Some((value, unit))) => Ok(Some(value * unit)),
        Ok(None) => Ok(None),
        Err(e) => Err(e),
    }
}

/// Refuses a non-interactive cleanup that was not confirmed with `--yes`.
pub fn confirm_cleanup(yes: bool) -> (r: Result<(), RepoSweepError>)
    ensures
        yes ==> r is Ok,
        !yes ==> (r matches Err(RepoSweepError::InvalidRequest(m)) && m@
            == "pass --yes to confirm non-interactive cleanup"@),
{
    if yes {
        Ok(())
    } else {
        proof {
            reveal_strlit("pass --yes to confirm non-interactive cleanup");
        }
        Err(RepoSweepError::InvalidRequest(owned("pass --yes to confirm non-interactive cleanup")))
    }
}

/// How the uninstall command runs.
#[derive(Clone, Copy, Debug)]
pub struct UninstallOptions {
    /// Skip the confirmation question.
    pub yes: bool,
}

/// The answers that confirm an uninstall.
pub open spec fn is_yes_answer(answer: Seq<char>) -> bool {
    answer == "y"@ || answer == "Y"@ || answer == "yes"@ || answer == "YES"@ || answer == "Yes"@
}

/// Whether a typed answer confirms the uninstall: after trimming, one of
/// `y`, `Y`, `yes`, `YES`, `Yes`.
pub fn confirms_uninstall(input: &str) -> (r: bool)
    ensures
        r == is_yes_answer(trimmed(input@)),
{
    let answer = trim(input);
    let a = answer.as_str();
    let r = crate::text::same_text(a, "y") || crate::text::same_text(a, "Y")
        || crate::text::same_text(a, "yes") || crate::text::same_text(a, "YES")
        || crate::text::same_text(a, "Yes");
    r
}

/// `yes` or `no`.
pub fn yes_no(value: bool) -> (r: &'static str)
    ensures
        r@ == (if value {
            "yes"@
        } else {
            "no"@
        }),
{
    if value {
        "yes"
    } else {
        "no"
    }
}

/// The form of a path that install directories are compared by: its
/// canonical form when the file system gave one (`canonical`), else the
/// path as given.
pub fn normalize_path(path: &FsPath, canonical: Option<FsPath>) -> (r: FsPath)
    ensures
        canonical matches Some(c) ==> r@ == c@,
        canonical is None ==> r@ == path@,
{
    match canonical {
        Some(c) => c,
        None => path.duplicate(),
    }
}

/// Whether two paths name the same directory, each compared in its
/// normalized form.
pub fn paths_match(left: &FsPath, left_canonical: Option<FsPath>, right: &FsPath, right_canonical: Option<FsPath>) -> (r: bool)
    ensures
        r == (match left_canonical {
            Some(c) => c@,
            None => left@,
        } == match right_canonical {
            Some(c) => c@,
            None => right@,
        }),
{
    let a = normalize_path(left, left_canonical);
    let b = normalize_path(right, right_canonical);
    a.same_as(&b)
}

} // verus!
