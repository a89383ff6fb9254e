use vstd::prelude::*;
use crate::duration::{duration_str, format_elapsed};
use crate::error::Error;

verus! {

/// A pet, with where it is and since when. The position is the wire value:
/// 1 means inside, 2 means outside, and anything else is invalid and is
/// rejected when the pet is rendered. `position_since` is a Unix timestamp
/// in whole seconds.
#[derive(Debug, PartialEq)]
pub struct Pet {
    pub name: String,
    pub position: u8,
    pub position_since: i64,
}

/// The mathematical content of a pet.
pub ghost struct PetView {
    pub name: Seq<char>,
    pub position: u8,
    pub position_since: int,
}

impl View for Pet {
    type V = PetView;

    open spec fn view(&self) -> PetView {
        PetView {
            name: self.name@,
            position: self.position,
            position_since: self.position_since as int,
        }
    }
}

/// The status line of a pet whose position is valid, given the wall-clock
/// time `now` (a Unix timestamp in whole seconds).
pub open spec fn pet_line_spec(p: PetView, now: int) -> Seq<char>
    recommends
        p.position == 1 || p.position == 2,
        p.position_since <= now,
{
    let dur = duration_str((now - p.position_since) as nat);
    if p.position == 1 {
        "\u{1f3e0} "@ + p.name + " is inside since "@ + dur
    } else {
        "\u{1f3e1} "@ + p.name + " is outside since "@ + dur
    }
}

/// Human-readable duration since the pet's position last changed, for
/// example `2h 12m 53s`.
pub fn position_duration(since: i64, now: i64) -> (r: String)
    requires
        since <= now,
        now - since <= i64::MAX,
    ensures
        r@ == duration_str((now - since) as nat),
{
    let elapsed: i64 = now - since;
    format_elapsed(elapsed as u64)
}

impl Pet {
    /// Summary of a pet, for example `🏠 Garfield is inside since 1h 27m 8s`,
    /// given the wall-clock time `now`. A position other than inside (1) or
    /// outside (2) is invalid, and is the only way this fails.
    pub fn information(&self, now: i64) -> (r: Result<String, Error>)
        requires
            (self.position == 1 || self.position == 2) ==> self.position_since <= now && now
                - self.position_since <= i64::MAX,
        ensures
            match r {
                Ok(line) => (self.position == 1 || self.position == 2) && line@ == pet_line_spec(
                    self@,
                    now as int,
                ),
                Err(e) => !(self.position == 1 || self.position == 2) && e
                    == Error::InvalidPetPosition,
            },
    {
        if self.position != 1 && self.position != 2 {
            return Err(Error::InvalidPetPosition);
        }
        let mut out = String::new();
        if self.position == 1 {
            out.append("\u{1f3e0} ");
            out.append(self.name.as_str());
            out.append(" is inside since ");
        } else {
            out.append("\u{1f3e1} ");
            out.append(self.name.as_str());
            out.append(" is outside since ");
        }
        let dur = position_duration(self.position_since, now);
        out.append(dur.as_str());
        proof {
            assert(out@ =~= pet_line_spec(self@, now as int));
        }
        Ok(out)
    }
}

} // verus!
