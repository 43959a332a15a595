//! Where the sources of an interpreter are found, and which release of a
//! release line is the current one.

use vstd::prelude::*;
use crate::fs::PathState;
use crate::registry::{Reply, STATUS_OK};
use crate::text::same_text;
use crate::version::{Version, VersionModel};

verus! {

/// One release line of the interpreter, as the release calendar lists it:
/// the line, such as `3.12`, and its latest release, such as `3.12.7`.
#[derive(Clone, Debug, PartialEq, Eq)]
pub struct Cycle {
    pub cycle: String,
    pub latest: String,
}

/// Why the release calendar gave no answer.
#[derive(Clone, Copy, Debug, PartialEq, Eq, Structural)]
pub enum CalendarError {
    /// No answer came, or one with another status than success.
    Unreachable,
    /// The answer could not be read as a calendar.
    Invalid,
}

/// The latest release of the first line of the calendar that is `line`.
pub open spec fn latest_of(cycles: Seq<Cycle>, line: Seq<char>) -> Option<Seq<char>>
    decreases cycles.len(),
{
    if cycles.len() == 0 {
        None
    } else if cycles[0].cycle@ == line {
        Some(cycles[0].latest@)
    } else {
        latest_of(cycles.skip(1), line)
    }
}

/// The address of the archive of the interpreter's sources.
pub open spec fn tarball_address(version: VersionModel) -> Seq<char> {
    "https://www.python.org/ftp/python/"@ + version.text() + "/Python-"@ + version.text()
        + ".tgz"@
}

/// The address from which to download the sources of the interpreter of
/// `version`.
pub fn python_tarball_url(version: &Version) -> (url: String)
    ensures
        url@ == tarball_address(version@),
{
    let text = version.to_text();
    let mut url = String::from_str("https://www.python.org/ftp/python/");
    url.append(text.as_str());
    url.append("/Python-");
    url.append(text.as_str());
    url.append(".tgz");
    url
}

/// Whether the interpreter has to be installed, given what was found at its
/// directory: it has to be where nothing stands there.
pub fn interpreter_step(found: &PathState) -> (install: bool)
    ensures
        install == (found@ is Absent),
{
    match found {
        PathState::Absent => true,
        _ => false,
    }
}

/// The latest release of the first line of `cycles` that is `line`.
pub fn latest_in(cycles: &Vec<Cycle>, line: &str) -> (found: Option<String>)
    ensures
        match found {
            Some(latest) => latest_of(cycles@, line@) == Some(latest@),
            None => latest_of(cycles@, line@) is None,
        },
{
    let mut i: usize = 0;
    assert(cycles@.skip(0) =~= cycles@);
    while i < cycles.len()
        invariant
            i <= cycles.len(),
            latest_of(cycles@, line@) == latest_of(cycles@.skip(i as int), line@),
        decreases cycles.len() - i,
    {
        let entry = &cycles[i];
        proof {
            assert(cycles@.skip(i as int)[0] == *entry);
            assert(cycles@.skip(i as int).skip(1) =~= cycles@.skip(i + 1));
        }
        if same_text(entry.cycle.as_str(), line) {
            return Some(entry.latest.clone());
        }
        i += 1;
    }
    None
}

/// The latest release of the line `major_minor_version`, from what the
/// release calendar answered: `None` where the calendar does not list the
/// line.
pub fn get_full_python_version(major_minor_version: &str, reply: &Reply<Vec<Cycle>>) -> (found:
    Result<Option<String>, CalendarError>)
    ensures
        match *reply {
            Reply::Unreachable => found == Err::<Option<String>, CalendarError>(
                CalendarError::Unreachable,
            ),
            Reply::Answer { status, body } => if status != STATUS_OK {
                found == Err::<Option<String>, CalendarError>(CalendarError::Unreachable)
            } else {
                match body {
                    None => found == Err::<Option<String>, CalendarError>(CalendarError::Invalid),
                    Some(cycles) => match found {
                        Ok(Some(latest)) => latest_of(cycles@, major_minor_version@) == Some(
                            latest@,
                        ),
                        Ok(None) => latest_of(cycles@, major_minor_version@) is None,
                        Err(_) => false,
                    },
                }
            },
        },
{
    match reply {
        Reply::Unreachable => Err(CalendarError::Unreachable),
        Reply::Answer { status, body } => {
            if *status != STATUS_OK {
                return Err(CalendarError::Unreachable);
            }
            match body {
                None => Err(CalendarError::Invalid),
                Some(cycles) => Ok(latest_in(cycles, major_minor_version)),
            }
        },
    }
}

} // verus!
