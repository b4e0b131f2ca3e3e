//! Conflict resolution for alias collisions.
//!
//! When an alias is about to be reassigned, the resolving authority is
//! asked to skip the insert, replace the existing entry, or reselect a
//! different alias. An unrecognized answer is asked again; the loop over
//! the answers is iterative, and works as well over a scripted sequence
//! of answers as over an interactive terminal.

use vstd::prelude::*;
use vstd::string::StrSliceExecFns;

verus! {

/// Outcome of an alias collision, consumed exactly once by the caller
/// that triggered it.
pub enum ConfirmationResponse {
    /// Abort the insert and keep the existing entry untouched.
    Skip,
    /// Overwrite the existing entry with the new one.
    Replace,
    /// Abort this insert; the caller must retry under the new alias,
    /// which may itself collide again.
    Reselect(String),
}

/// The mathematical value of a confirmation response.
pub enum ConfirmationResponseV {
    Skip,
    Replace,
    Reselect(Seq<char>),
}

impl View for ConfirmationResponse {
    type V = ConfirmationResponseV;

    open spec fn view(&self) -> ConfirmationResponseV {
        match *self {
            ConfirmationResponse::Skip => ConfirmationResponseV::Skip,
            ConfirmationResponse::Replace => ConfirmationResponseV::Replace,
            ConfirmationResponse::Reselect(a) => ConfirmationResponseV::Reselect(a@),
        }
    }
}

/// The view of an optional response.
pub open spec fn resp_view(r: Option<ConfirmationResponse>) -> Option<ConfirmationResponseV> {
    match r {
        Some(x) => Some(x@),
        None => None,
    }
}

/// What one answer line means on its own.
pub enum Choice {
    Replace,
    Skip,
    /// The authority wants to reselect; the next line holds the alias.
    ReselectMarker,
}

/// The meaning of one answer line: its first character selects the
/// choice, and an empty or senseless line is unrecognized.
pub open spec fn spec_choice(line: Seq<char>) -> Option<Choice> {
    if line.len() == 0 {
        None
    } else if line[0] == 'p' || line[0] == 'P' {
        Some(Choice::Replace)
    } else if line[0] == 'k' || line[0] == 'K' {
        Some(Choice::Skip)
    } else if line[0] == 's' || line[0] == 'S' {
        Some(Choice::ReselectMarker)
    } else {
        None
    }
}

/// Parse one answer line.
pub fn parse_choice(line: &String) -> (r: Option<Choice>)
    ensures
        r == spec_choice(line@),
{
    let s = line.as_str();
    if s.unicode_len() == 0 {
        return None;
    }
    let c = s.get_char(0);
    if c == 'p' || c == 'P' {
        Some(Choice::Replace)
    } else if c == 'k' || c == 'K' {
        Some(Choice::Skip)
    } else if c == 's' || c == 'S' {
        Some(Choice::ReselectMarker)
    } else {
        None
    }
}

/// The decision that an ordered sequence of answer lines yields: the
/// first recognized choice wins, every unrecognized line is asked again,
/// a reselect marker consumes the following line as the new alias, and a
/// marker on the last line yields nothing (no alias could be read).
pub open spec fn spec_decision(lines: Seq<Seq<char>>) -> Option<ConfirmationResponseV>
    decreases lines.len(),
{
    if lines.len() == 0 {
        None
    } else {
        match spec_choice(lines[0]) {
            Some(Choice::Replace) => Some(ConfirmationResponseV::Replace),
            Some(Choice::Skip) => Some(ConfirmationResponseV::Skip),
            Some(Choice::ReselectMarker) => if lines.len() >= 2 {
                Some(ConfirmationResponseV::Reselect(lines[1]))
            } else {
                None
            },
            None => spec_decision(lines.drop_first()),
        }
    }
}

/// Run the read-decide-act cycle over a sequence of answer lines,
/// iteratively. A finite script that never reaches a recognized choice
/// yields no decision.
pub fn decide(lines: &Vec<String>) -> (r: Option<ConfirmationResponse>)
    ensures
        resp_view(r) == spec_decision(lines.deep_view()),
{
    let ghost full: Seq<Seq<char>> = lines.deep_view();
    proof {
        assert(full.skip(0) =~= full);
    }
    let mut i: usize = 0;
    while i < lines.len()
        invariant
            0 <= i <= lines.len(),
            full == lines.deep_view(),
            full.len() == lines.len(),
            spec_decision(full.skip(i as int)) == spec_decision(full),
        decreases lines.len() - i,
    {
        proof {
            assert(full[i as int] == lines.deep_view()[i as int]);
        }
        match parse_choice(&lines[i]) {
            Some(Choice::Replace) => {
                return Some(ConfirmationResponse::Replace);
            },
            Some(Choice::Skip) => {
                return Some(ConfirmationResponse::Skip);
            },
            Some(Choice::ReselectMarker) => {
                if i + 1 < lines.len() {
                    let alias: &String = &lines[i + 1];
                    proof {
                        assert(full.skip(i as int)[1] == full[i + 1]);
                    }
                    return Some(ConfirmationResponse::Reselect(alias.clone()));
                } else {
                    return None;
                }
            },
            None => {
                proof {
                    assert(full.skip(i as int).drop_first() =~= full.skip(i + 1 as int));
                }
                i += 1;
            },
        }
    }
    proof {
        assert(full.skip(i as int).len() == 0);
    }
    None
}

} // verus!
