//! The rotation policy: a secret is due unless the marker in its notes says
//! that it was rotated within the window.

use crate::infra::clock::{
    fewer_days_between, nanos_between, nanos_per_day, parse_rfc3339, rfc3339_instant_spec,
    utc_now, whole_days_between,
};
use crate::text::{
    chars_of, lines, lines_spec, starts_with, string_of, strip_repeated_prefix, trim, trim_spec,
    trim_start_matches, views,
};
use vstd::prelude::*;

verus! {

/// The characters of `Last Rotated: `, which begin the marker line.
pub open spec fn marker_spec() -> Seq<char> {
    seq!['L', 'a', 's', 't', ' ', 'R', 'o', 't', 'a', 't', 'e', 'd', ':', ' ']
}

/// The marker, as characters.
pub fn marker() -> (m: Vec<char>)
    ensures
        m@ == marker_spec(),
{
    proof {
        reveal_strlit("Last Rotated: ");
    }
    let m = chars_of("Last Rotated: ");
    assert(m@ == marker_spec());
    m
}

/// The first of `lines` that begins with the marker.
pub open spec fn first_marked(lines: Seq<Seq<char>>) -> Option<Seq<char>>
    decreases lines.len(),
{
    if lines.len() == 0 {
        None
    } else if marker_spec().is_prefix_of(lines[0]) {
        Some(lines[0])
    } else {
        first_marked(lines.drop_first())
    }
}

/// What the notes say of the last rotation: what follows the marker on the
/// first line that begins with it, without white space around it. `None`
/// where no line begins with the marker.
pub open spec fn last_rotated_text_spec(notes: Seq<char>) -> Option<Seq<char>> {
    match first_marked(lines_spec(notes)) {
        None => None,
        Some(line) => Some(trim_spec(strip_repeated_prefix(line, marker_spec()))),
    }
}

/// What the notes say of the last rotation.
pub fn last_rotated_text(notes: &str) -> (r: Option<String>)
    ensures
        r matches Some(t) ==> last_rotated_text_spec(notes@) == Some(t@),
        r is None ==> last_rotated_text_spec(notes@) is None,
{
    let text = chars_of(notes);
    let all = lines(text.as_slice());
    let m = marker();
    let mut i: usize = 0;
    assert(views(all@).skip(0) == views(all@));
    while i < all.len()
        invariant
            i <= all.len(),
            m@ == marker_spec(),
            views(all@) == lines_spec(notes@),
            first_marked(lines_spec(notes@)) == first_marked(views(all@).skip(i as int)),
        decreases all.len() - i,
    {
        let ghost rest = views(all@).skip(i as int);
        assert(rest[0] == all@[i as int]@);
        if starts_with(all[i].as_slice(), m.as_slice()) {
            let after = trim_start_matches(all[i].as_slice(), m.as_slice());
            let trimmed = trim(after.as_slice());
            return Some(string_of(trimmed.as_slice()));
        }
        assert(rest.drop_first() == views(all@).skip(i + 1));
        i += 1;
    }
    None
}

/// Whether a secret with these notes is due at the instant `now`, for a
/// window of `rotation_days` days. It is not due only where the notes name
/// the last rotation, the text is a date and time, and fewer than
/// `rotation_days` whole days have passed since. A text that is no date and
/// time leaves the secret due.
pub open spec fn rotation_due_spec(notes: Seq<char>, rotation_days: u64, now: (int, int)) -> bool {
    match last_rotated_text_spec(notes) {
        None => true,
        Some(text) => match rfc3339_instant_spec(text) {
            None => true,
            Some(last) => !(whole_days_between(last, now) < rotation_days),
        },
    }
}

/// Whether a secret with these notes is due at the instant `now`, given as
/// seconds since the Unix epoch and nanoseconds within the second.
pub fn rotation_due(notes: &str, rotation_days: u64, now: (i64, u32)) -> (due: bool)
    ensures
        due == rotation_due_spec(notes@, rotation_days, (now.0 as int, now.1 as int)),
{
    match last_rotated_text(notes) {
        None => true,
        Some(text) => match parse_rfc3339(text.as_str()) {
            None => true,
            Some(last) => !fewer_days_between(last, now, rotation_days),
        },
    }
}

/// The instant of the last rotation that the notes name, where they name
/// one and it is a date and time.
pub open spec fn last_rotated_instant_spec(notes: Seq<char>) -> Option<(int, int)> {
    match last_rotated_text_spec(notes) {
        None => None,
        Some(text) => rfc3339_instant_spec(text),
    }
}

/// Notes without marker, and notes whose marker is followed by no date and
/// time, leave the secret due. Notes that name a last rotation leave it due
/// exactly where a full window or more has passed since, for a window of at
/// least a day or a last rotation that is not after `now`.
pub proof fn lemma_due_outside_the_window_only(notes: Seq<char>, rotation_days: u64, now: (int, int))
    ensures
        last_rotated_instant_spec(notes) is None ==> rotation_due_spec(notes, rotation_days, now),
        last_rotated_instant_spec(notes) is Some && (rotation_days > 0 || nanos_between(
            last_rotated_instant_spec(notes)->0,
            now,
        ) >= 0) ==> (rotation_due_spec(notes, rotation_days, now) <==> nanos_between(
            last_rotated_instant_spec(notes)->0,
            now,
        ) >= rotation_days * nanos_per_day()),
{
    match last_rotated_text_spec(notes) {
        Some(t) => match rfc3339_instant_spec(t) {
            Some(last) => {
                let d = nanos_between(last, now);
                let day = nanos_per_day();
                let n = rotation_days as int;
                if d >= 0 {
                    assert((d / day < n) <==> d < n * day) by (nonlinear_arith)
                        requires
                            d >= 0,
                            day == 86_400_000_000_000,
                            n >= 0,
                    ;
                } else {
                    assert(0 <= (-d) / day) by (nonlinear_arith)
                        requires
                            -d >= 0,
                            day == 86_400_000_000_000,
                    ;
                    assert(n * day >= 0) by (nonlinear_arith)
                        requires
                            n >= 0,
                            day == 86_400_000_000_000,
                    ;
                }
            },
            None => {},
        },
        None => {},
    }
}

/// Whether a secret with these notes is due now. Notes without a marker
/// line, and notes whose marker is followed by no date and time, leave the
/// secret due whatever the clock says.
pub fn should_rotate_by_policy(notes: &str, rotation_days: u64) -> (due: bool)
    ensures
        exists|now: (int, int)| due == rotation_due_spec(notes@, rotation_days, now),
        last_rotated_text_spec(notes@) is None ==> due,
        last_rotated_text_spec(notes@) matches Some(t) && rfc3339_instant_spec(t) is None ==> due,
{
    let now = utc_now();
    let due = rotation_due(notes, rotation_days, now);
    assert(due == rotation_due_spec(notes@, rotation_days, (now.0 as int, now.1 as int)));
    due
}

} // verus!
