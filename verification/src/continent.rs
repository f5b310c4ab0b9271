use vstd::prelude::*;

use crate::strings::str_eq;

verus! {

/// The continent a geography-aware policy would classify a backend under,
/// derived from its address.
#[derive(Clone, Copy, Debug, PartialEq, Eq, Structural)]
pub enum Continent {
    Africa,
    Antarctica,
    Asia,
    Europe,
    NorthAmerica,
    Oceania,
    SouthAmerica,
}

/// The continent a two-letter code names, or `None` for anything else.
pub open spec fn continent_of(s: Seq<char>) -> Option<Continent> {
    if s == "AF"@ {
        Some(Continent::Africa)
    } else if s == "AN"@ {
        Some(Continent::Antarctica)
    } else if s == "AS"@ {
        Some(Continent::Asia)
    } else if s == "EU"@ {
        Some(Continent::Europe)
    } else if s == "NA"@ {
        Some(Continent::NorthAmerica)
    } else if s == "OC"@ {
        Some(Continent::Oceania)
    } else if s == "SA"@ {
        Some(Continent::SouthAmerica)
    } else {
        None
    }
}

impl Continent {
    /// Parses a two-letter continent code.
    pub fn from_str(s: &str) -> (r: Option<Continent>)
        ensures
            r == continent_of(s@),
    {
        if str_eq(s, "AF") {
            Some(Continent::Africa)
        } else if str_eq(s, "AN") {
            Some(Continent::Antarctica)
        } else if str_eq(s, "AS") {
            Some(Continent::Asia)
        } else if str_eq(s, "EU") {
            Some(Continent::Europe)
        } else if str_eq(s, "NA") {
            Some(Continent::NorthAmerica)
        } else if str_eq(s, "OC") {
            Some(Continent::Oceania)
        } else if str_eq(s, "SA") {
            Some(Continent::SouthAmerica)
        } else {
            None
        }
    }
}

} // verus!
