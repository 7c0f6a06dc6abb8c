//! Units of file size and the rules for reading a size request.

use vstd::prelude::*;
use vstd::string::*;
use crate::fields::{fields_of, is_run, lemma_fields_are_runs, same_text, split_fields};

verus! {

/// A unit in which a file size is given.
#[derive(Clone, Copy, Debug, PartialEq, Eq, Structural)]
pub enum Unit {
    Bytes,
    Kilobytes,
    Megabytes,
    Gigabytes,
}

impl Unit {
    /// The unit that a lower-case name stands for.
    pub open spec fn named(name: Seq<char>) -> Option<Unit> {
        if name == "bytes"@ {
            Some(Unit::Bytes)
        } else if name == "kb"@ {
            Some(Unit::Kilobytes)
        } else if name == "mb"@ {
            Some(Unit::Megabytes)
        } else if name == "gb"@ {
            Some(Unit::Gigabytes)
        } else {
            None
        }
    }

    /// The unit with the lower-case name `name`, if there is one.
    pub fn from_name(name: &str) -> (unit: Option<Unit>)
        ensures
            unit == Unit::named(name@),
    {
        if same_text(name, "bytes") {
            Some(Unit::Bytes)
        } else if same_text(name, "kb") {
            Some(Unit::Kilobytes)
        } else if same_text(name, "mb") {
            Some(Unit::Megabytes)
        } else if same_text(name, "gb") {
            Some(Unit::Gigabytes)
        } else {
            None
        }
    }
}

/// The lower-case form of a string, as `str::to_lowercase` gives it.
pub uninterp spec fn lowercase_of(text: Seq<char>) -> Seq<char>;

/// Calls `str::to_lowercase`. The contract only names the result: the
/// Unicode lower-case mapping itself is not stated here.
#[verifier::external_body]
fn to_lowercase(text: &str) -> (lowered: String)
    ensures
        lowered@ == lowercase_of(text@),
{
    text.to_lowercase()
}

impl Unit {
    /// The unit that `token` names, letter case aside.
    pub fn parse(token: &str) -> (unit: Option<Unit>)
        ensures
            unit == Unit::named(lowercase_of(token@)),
    {
        let lowered = to_lowercase(token);
        Unit::from_name(lowered.as_str())
    }
}

/// The two fields of a size request: the number as it was written, and the
/// name of the unit.
#[derive(Debug)]
pub struct SizeRequest {
    pub number: String,
    pub unit: String,
}

/// The two fields of `text`, where it has exactly two.
pub open spec fn request_fields(text: Seq<char>) -> Option<(Seq<char>, Seq<char>)> {
    let fields = fields_of(text);
    if fields.len() == 2 {
        Some((text.subrange(fields[0].0, fields[0].1), text.subrange(fields[1].0, fields[1].1)))
    } else {
        None
    }
}

/// Reads a request of the form `<number> <unit>`: two fields parted and
/// surrounded by any white space. Any other number of fields is refused.
pub fn split_request(input: &str) -> (request: Option<SizeRequest>)
    ensures
        match request {
            Some(r) => request_fields(input@) == Some((r.number@, r.unit@)),
            None => request_fields(input@) is None,
        },
{
    let spans = split_fields(input);
    if spans.len() != 2 {
        return None;
    }
    proof {
        lemma_fields_are_runs(input@, input@.len() as int);
        let fields = fields_of(input@);
        assert(fields[0] == (spans@[0].0 as int, spans@[0].1 as int));
        assert(fields[1] == (spans@[1].0 as int, spans@[1].1 as int));
        assert(is_run(input@, fields[0]));
        assert(is_run(input@, fields[1]));
    }
    let number = String::from_str(input.substring_char(spans[0].0, spans[0].1));
    let unit = String::from_str(input.substring_char(spans[1].0, spans[1].1));
    Some(SizeRequest { number, unit })
}

/// How a size in one unit becomes a size in another.
#[derive(Clone, Copy, Debug, PartialEq, Eq, Structural)]
pub enum Conversion {
    /// The units are the same.
    Same,
    /// Multiply by the factor.
    Times(u64),
    /// Divide by the factor.
    Over(u64),
}

/// A thousand to the power of `n`.
pub open spec fn thousands(n: nat) -> nat
    decreases n,
{
    if n == 0 {
        1
    } else {
        1000 * thousands((n - 1) as nat)
    }
}

impl Unit {
    /// How many steps of a thousand the unit stands above the byte.
    pub open spec fn rank(self) -> nat {
        match self {
            Unit::Bytes => 0,
            Unit::Kilobytes => 1,
            Unit::Megabytes => 2,
            Unit::Gigabytes => 3,
        }
    }

    /// From a larger unit to a smaller one a size is multiplied, from a
    /// smaller to a larger one divided, by a thousand for each step between
    /// them.
    pub open spec fn conversion_spec(self, to: Unit) -> Conversion {
        if self.rank() == to.rank() {
            Conversion::Same
        } else if self.rank() > to.rank() {
            Conversion::Times(thousands((self.rank() - to.rank()) as nat) as u64)
        } else {
            Conversion::Over(thousands((to.rank() - self.rank()) as nat) as u64)
        }
    }

    fn steps(self) -> (n: u8)
        ensures
            n == self.rank(),
    {
        match self {
            Unit::Bytes => 0,
            Unit::Kilobytes => 1,
            Unit::Megabytes => 2,
            Unit::Gigabytes => 3,
        }
    }

    /// The conversion of a size in this unit to a size in `to`.
    pub fn conversion(self, to: Unit) -> (c: Conversion)
        ensures
            c == self.conversion_spec(to),
            match c {
                Conversion::Same => self == to,
                Conversion::Times(k) => k == 1000 || k == 1_000_000 || k == 1_000_000_000,
                Conversion::Over(k) => k == 1000 || k == 1_000_000 || k == 1_000_000_000,
            },
    {
        let from_steps: u8 = self.steps();
        let to_steps: u8 = to.steps();
        proof {
            reveal_with_fuel(thousands, 4);
        }
        if from_steps == to_steps {
            Conversion::Same
        } else if from_steps > to_steps {
            Conversion::Times(factor(from_steps - to_steps))
        } else {
            Conversion::Over(factor(to_steps - from_steps))
        }
    }
}

/// A thousand to the power of `steps`, for the steps that lie between units.
fn factor(steps: u8) -> (k: u64)
    requires
        1 <= steps <= 3,
    ensures
        k == thousands(steps as nat),
        k == 1000 || k == 1_000_000 || k == 1_000_000_000,
{
    proof {
        reveal_with_fuel(thousands, 4);
    }
    if steps == 1 {
        1000
    } else if steps == 2 {
        1_000_000
    } else {
        1_000_000_000
    }
}

} // verus!
