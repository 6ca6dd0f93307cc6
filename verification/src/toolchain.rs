//! What is settled before any work starts: the version asked for, the name
//! of the directory that the toolchain goes to, that this directory is new,
//! and how many workers extract.

use crate::error::Failure;
use crate::error::InstallError;
use vstd::prelude::*;
use vstd::string::StrSliceExecFns;
use vstd::string::StringExecFns;

verus! {

/// Whether `c` is one of the digits `0` to `9`.
pub open spec fn is_digit(c: char) -> bool {
    '0' <= c && c <= '9'
}

/// Whether `c` may stand at place `i` of a version `nightly-YYYY-MM-DD`.
pub open spec fn fits_at(i: int, c: char) -> bool {
    if 0 <= i < 8 {
        c == "nightly-"@[i]
    } else if i == 12 || i == 15 {
        c == '-'
    } else {
        is_digit(c)
    }
}

/// Whether `s` has the form `nightly-YYYY-MM-DD`: the word `nightly`, then
/// four, two and two digits, each group after a hyphen.
pub open spec fn is_nightly_version(s: Seq<char>) -> bool {
    &&& s.len() == 18
    &&& forall|i: int| 0 <= i < 18 ==> fits_at(i, #[trigger] s[i])
}

fn fits(i: usize, c: char) -> (yes: bool)
    requires
        i < 18,
    ensures
        yes == fits_at(i as int, c),
{
    if i < 8 {
        proof {
            reveal_strlit("nightly-");
        }
        c == "nightly-".get_char(i)
    } else if i == 12 || i == 15 {
        c == '-'
    } else {
        '0' <= c && c <= '9'
    }
}

/// Reads the date out of a version of the form `nightly-YYYY-MM-DD`: the
/// date is what follows `nightly-`. Any other text is refused.
pub fn parse_version(version: &str) -> (r: Result<String, InstallError>)
    ensures
        is_nightly_version(version@) ==> (r matches Ok(date) && date@ == version@.skip(8)),
        !is_nightly_version(version@) ==> (r matches Err(e) && e@
            == (Failure::InvalidVersionFormat { given: version@ })),
{
    if version.unicode_len() != 18 {
        return Err(InstallError::InvalidVersionFormat { given: String::from_str(version) });
    }
    let mut i: usize = 0;
    while i < 18
        invariant
            i <= 18,
            version@.len() == 18,
            forall|k: int| 0 <= k < i ==> fits_at(k, #[trigger] version@[k]),
        decreases 18 - i,
    {
        if !fits(i, version.get_char(i)) {
            return Err(InstallError::InvalidVersionFormat { given: String::from_str(version) });
        }
        i += 1;
    }
    let date = version.substring_char(8, 18);
    Ok(String::from_str(date))
}

/// A version of the right form is `nightly-` followed by its date.
pub proof fn lemma_version_is_prefix_and_date(version: Seq<char>)
    requires
        is_nightly_version(version),
    ensures
        version == "nightly-"@ + version.skip(8),
{
    reveal_strlit("nightly-");
    let joined = "nightly-"@ + version.skip(8);
    assert(forall|i: int| 0 <= i < 18 ==> version[i] == joined[i]);
}

/// The name of the directory that holds the toolchain of `date` for
/// `target`: `nightly-`, the date, a hyphen, the target.
pub fn toolchain_name(date: &str, target: &str) -> (name: String)
    ensures
        name@ == "nightly-"@ + date@ + "-"@ + target@,
{
    let mut name = String::from_str("nightly-");
    name.append(date);
    name.append("-");
    name.append(target);
    name
}

/// The check before any work: the run may start only if the destination
/// does not exist yet.
pub fn check_destination(exists: bool, path: &str) -> (r: Result<(), InstallError>)
    ensures
        !exists ==> r is Ok,
        exists ==> (r matches Err(e) && e@
            == (Failure::DestinationAlreadyExists { path: path@ })),
{
    if exists {
        Err(InstallError::DestinationAlreadyExists { path: String::from_str(path) })
    } else {
        Ok(())
    }
}

/// The number of workers that a run with `available` hardware threads uses
/// for `components` components.
pub open spec fn workers(available: Option<usize>, components: usize) -> usize {
    let hardware = match available {
        Some(n) => n,
        None => 1,
    };
    if hardware <= components {
        hardware
    } else {
        components
    }
}

/// The size of the worker pool: as many workers as the hardware runs in
/// parallel (one, where that is not known), but no more than there are
/// components.
pub fn worker_count(available: Option<usize>, components: usize) -> (n: usize)
    ensures
        n == workers(available, components),
{
    let hardware: usize = match available {
        Some(n) => n,
        None => 1,
    };
    if hardware <= components {
        hardware
    } else {
        components
    }
}

} // verus!
