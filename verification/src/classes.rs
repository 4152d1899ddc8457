//! The closed vocabulary of airspace classes and its two-way mapping to the
//! short codes of the line grammar.
use vstd::prelude::*;

use crate::chars::str_eq;

verus! {

broadcast use vstd::string::group_string_axioms;

/// Airspace class.
#[derive(Debug, PartialEq, Eq, Clone, Copy, Structural)]
pub enum Class {
    /// Airspace A
    A,
    /// Airspace B
    B,
    /// Airspace C
    C,
    /// Airspace D
    D,
    /// Airspace E
    E,
    /// Airspace F
    F,
    /// Airspace G
    G,
    /// Controlled Traffic Region
    Ctr,
    /// Restricted area
    Restricted,
    /// Danger area
    Danger,
    /// Prohibited area
    Prohibited,
    /// Prohibited for gliders
    GliderProhibited,
    /// Wave window
    WaveWindow,
    /// Radio mandatory zone
    RadioMandatoryZone,
    /// Transponder mandatory zone
    TransponderMandatoryZone,
    /// Unclassified
    Unclassified,
}

/// The short code of each class, as written in a class-declaration line.
pub open spec fn spec_class_code(c: Class) -> Seq<char> {
    match c {
        Class::A => "A"@,
        Class::B => "B"@,
        Class::C => "C"@,
        Class::D => "D"@,
        Class::E => "E"@,
        Class::F => "F"@,
        Class::G => "G"@,
        Class::Ctr => "CTR"@,
        Class::Restricted => "R"@,
        Class::Danger => "Q"@,
        Class::Prohibited => "P"@,
        Class::GliderProhibited => "GP"@,
        Class::WaveWindow => "W"@,
        Class::RadioMandatoryZone => "RMZ"@,
        Class::TransponderMandatoryZone => "TMZ"@,
        Class::Unclassified => "UNC"@,
    }
}

/// The class denoted by a code, or `None` for anything outside the vocabulary.
pub open spec fn spec_parse_class(s: Seq<char>) -> Option<Class> {
    if s == "A"@ {
        Some(Class::A)
    } else if s == "B"@ {
        Some(Class::B)
    } else if s == "C"@ {
        Some(Class::C)
    } else if s == "D"@ {
        Some(Class::D)
    } else if s == "E"@ {
        Some(Class::E)
    } else if s == "F"@ {
        Some(Class::F)
    } else if s == "G"@ {
        Some(Class::G)
    } else if s == "CTR"@ {
        Some(Class::Ctr)
    } else if s == "R"@ {
        Some(Class::Restricted)
    } else if s == "Q"@ {
        Some(Class::Danger)
    } else if s == "P"@ {
        Some(Class::Prohibited)
    } else if s == "GP"@ {
        Some(Class::GliderProhibited)
    } else if s == "W"@ {
        Some(Class::WaveWindow)
    } else if s == "RMZ"@ {
        Some(Class::RadioMandatoryZone)
    } else if s == "TMZ"@ {
        Some(Class::TransponderMandatoryZone)
    } else if s == "UNC"@ {
        Some(Class::Unclassified)
    } else {
        None
    }
}

impl Class {
    /// Decodes a class code; unknown codes are a hard failure naming the code.
    pub fn parse(data: &str) -> (r: Result<Class, String>)
        ensures
            match r {
                Ok(c) => spec_parse_class(data@) == Some(c),
                Err(m) => spec_parse_class(data@) is None && m@ == "Invalid class: "@ + data@,
            },
    {
        if str_eq(data, "A") {
            Ok(Class::A)
        } else if str_eq(data, "B") {
            Ok(Class::B)
        } else if str_eq(data, "C") {
            Ok(Class::C)
        } else if str_eq(data, "D") {
            Ok(Class::D)
        } else if str_eq(data, "E") {
            Ok(Class::E)
        } else if str_eq(data, "F") {
            Ok(Class::F)
        } else if str_eq(data, "G") {
            Ok(Class::G)
        } else if str_eq(data, "CTR") {
            Ok(Class::Ctr)
        } else if str_eq(data, "R") {
            Ok(Class::Restricted)
        } else if str_eq(data, "Q") {
            Ok(Class::Danger)
        } else if str_eq(data, "P") {
            Ok(Class::Prohibited)
        } else if str_eq(data, "GP") {
            Ok(Class::GliderProhibited)
        } else if str_eq(data, "W") {
            Ok(Class::WaveWindow)
        } else if str_eq(data, "RMZ") {
            Ok(Class::RadioMandatoryZone)
        } else if str_eq(data, "TMZ") {
            Ok(Class::TransponderMandatoryZone)
        } else if str_eq(data, "UNC") {
            Ok(Class::Unclassified)
        } else {
            let msg = String::from_str("Invalid class: ");
            Err(msg.concat(data))
        }
    }

    /// The short code for this class.
    pub fn to_str(&self) -> (r: &'static str)
        ensures
            r@ == spec_class_code(*self),
    {
        match self {
            Class::A => "A",
            Class::B => "B",
            Class::C => "C",
            Class::D => "D",
            Class::E => "E",
            Class::F => "F",
            Class::G => "G",
            Class::Ctr => "CTR",
            Class::Restricted => "R",
            Class::Danger => "Q",
            Class::Prohibited => "P",
            Class::GliderProhibited => "GP",
            Class::WaveWindow => "W",
            Class::RadioMandatoryZone => "RMZ",
            Class::TransponderMandatoryZone => "TMZ",
            Class::Unclassified => "UNC",
        }
    }
}

/// Decoding a class's own code gives the class back: the two-way mapping is
/// exact.
pub proof fn lemma_class_code_round_trip(c: Class)
    ensures
        spec_parse_class(spec_class_code(c)) == Some(c),
{
    reveal_strlit("A");
    reveal_strlit("B");
    reveal_strlit("C");
    reveal_strlit("D");
    reveal_strlit("E");
    reveal_strlit("F");
    reveal_strlit("G");
    reveal_strlit("CTR");
    reveal_strlit("R");
    reveal_strlit("Q");
    reveal_strlit("P");
    reveal_strlit("GP");
    reveal_strlit("W");
    reveal_strlit("RMZ");
    reveal_strlit("TMZ");
    reveal_strlit("UNC");
    assert("A"@.len() == 1 && "A"@[0] == 'A');
    assert("B"@.len() == 1 && "B"@[0] == 'B');
    assert("C"@.len() == 1 && "C"@[0] == 'C');
    assert("D"@.len() == 1 && "D"@[0] == 'D');
    assert("E"@.len() == 1 && "E"@[0] == 'E');
    assert("F"@.len() == 1 && "F"@[0] == 'F');
    assert("G"@.len() == 1 && "G"@[0] == 'G');
    assert("CTR"@.len() == 3 && "CTR"@[0] == 'C');
    assert("R"@.len() == 1 && "R"@[0] == 'R');
    assert("Q"@.len() == 1 && "Q"@[0] == 'Q');
    assert("P"@.len() == 1 && "P"@[0] == 'P');
    assert("GP"@.len() == 2 && "GP"@[0] == 'G');
    assert("W"@.len() == 1 && "W"@[0] == 'W');
    assert("RMZ"@.len() == 3 && "RMZ"@[0] == 'R');
    assert("TMZ"@.len() == 3 && "TMZ"@[0] == 'T');
    assert("UNC"@.len() == 3 && "UNC"@[0] == 'U');
    assert("RMZ"@[1] == 'M');
    match c {
        Class::A => assert(spec_parse_class(spec_class_code(c)) == Some(Class::A)),
        Class::B => assert(spec_parse_class(spec_class_code(c)) == Some(Class::B)),
        Class::C => assert(spec_parse_class(spec_class_code(c)) == Some(Class::C)),
        Class::D => assert(spec_parse_class(spec_class_code(c)) == Some(Class::D)),
        Class::E => assert(spec_parse_class(spec_class_code(c)) == Some(Class::E)),
        Class::F => assert(spec_parse_class(spec_class_code(c)) == Some(Class::F)),
        Class::G => assert(spec_parse_class(spec_class_code(c)) == Some(Class::G)),
        Class::Ctr => assert(spec_parse_class(spec_class_code(c)) == Some(Class::Ctr)),
        Class::Restricted => assert(spec_parse_class(spec_class_code(c)) == Some(
            Class::Restricted,
        )),
        Class::Danger => assert(spec_parse_class(spec_class_code(c)) == Some(Class::Danger)),
        Class::Prohibited => assert(spec_parse_class(spec_class_code(c)) == Some(
            Class::Prohibited,
        )),
        Class::GliderProhibited => assert(spec_parse_class(spec_class_code(c)) == Some(
            Class::GliderProhibited,
        )),
        Class::WaveWindow => assert(spec_parse_class(spec_class_code(c)) == Some(
            Class::WaveWindow,
        )),
        Class::RadioMandatoryZone => assert(spec_parse_class(spec_class_code(c)) == Some(
            Class::RadioMandatoryZone,
        )),
        Class::TransponderMandatoryZone => assert(spec_parse_class(spec_class_code(c)) == Some(
            Class::TransponderMandatoryZone,
        )),
        Class::Unclassified => assert(spec_parse_class(spec_class_code(c)) == Some(
            Class::Unclassified,
        )),
    }
}

} // verus!
