//! The three classes of entity that a Forge Game Data schema can declare.

use vstd::prelude::*;
use crate::text::str_eq;

verus! {

/// Class of an entity declaration in a Forge Game Data file.
#[derive(Debug, PartialEq, Eq, Structural, Clone, Copy)]
pub enum QevyEntityType {
    /// A class that others inherit properties from; never placed in a map.
    Base,
    /// An entity made of brushes.
    Solid,
    /// An entity placed at a point.
    Point,
}

impl QevyEntityType {
    /// The keyword that opens a declaration of this class.
    pub open spec fn fgd_keyword(self) -> Seq<char> {
        match self {
            QevyEntityType::Base => "@BaseClass"@,
            QevyEntityType::Solid => "@SolidClass"@,
            QevyEntityType::Point => "@PointClass"@,
        }
    }

    /// The short name by which an annotation selects this class.
    pub open spec fn short_name(self) -> Seq<char> {
        match self {
            QevyEntityType::Base => "Base"@,
            QevyEntityType::Solid => "Solid"@,
            QevyEntityType::Point => "Point"@,
        }
    }

    /// The class that a short name selects, if it selects one.
    pub open spec fn of_short_name(name: Seq<char>) -> Option<QevyEntityType> {
        if name == "Base"@ {
            Some(QevyEntityType::Base)
        } else if name == "Solid"@ {
            Some(QevyEntityType::Solid)
        } else if name == "Point"@ {
            Some(QevyEntityType::Point)
        } else {
            None
        }
    }

    /// Returns the keyword that opens a declaration of this class.
    pub fn to_fgd_string(&self) -> (keyword: &'static str)
        ensures
            keyword@ == self.fgd_keyword(),
    {
        match self {
            QevyEntityType::Base => "@BaseClass",
            QevyEntityType::Solid => "@SolidClass",
            QevyEntityType::Point => "@PointClass",
        }
    }

    /// Reads a class from its short name; any other text gives `None`.
    pub fn from_short_string(string: &str) -> (class: Option<QevyEntityType>)
        ensures
            class == Self::of_short_name(string@),
    {
        if str_eq(string, "Base") {
            Some(QevyEntityType::Base)
        } else if str_eq(string, "Solid") {
            Some(QevyEntityType::Solid)
        } else if str_eq(string, "Point") {
            Some(QevyEntityType::Point)
        } else {
            None
        }
    }
}

/// Reading back the short name of a class gives that class.
pub proof fn lemma_short_name_round_trip(class: QevyEntityType)
    ensures
        QevyEntityType::of_short_name(class.short_name()) == Some(class),
{
    reveal_strlit("Base");
    reveal_strlit("Solid");
    reveal_strlit("Point");
    assert("Base"@.len() == 4);
    assert("Solid"@.len() == 5);
    assert("Point"@.len() == 5);
    assert("Solid"@[0] == 'S');
    assert("Point"@[0] == 'P');
}

/// Two classes that differ have keywords that differ.
pub proof fn lemma_keywords_differ(a: QevyEntityType, b: QevyEntityType)
    requires
        a != b,
    ensures
        a.fgd_keyword() != b.fgd_keyword(),
{
    reveal_strlit("@BaseClass");
    reveal_strlit("@SolidClass");
    reveal_strlit("@PointClass");
    assert("@BaseClass"@[1] == 'B');
    assert("@SolidClass"@[1] == 'S');
    assert("@PointClass"@[1] == 'P');
}

} // verus!
