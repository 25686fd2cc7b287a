//! Names of the days: the ten days of each décade, and the festivals of the
//! complementary days.

use vstd::prelude::*;

verus! {

/// The name of a day.
#[derive(Debug, Clone, Copy, PartialEq, Eq, Structural)]
pub enum Weekday {
    Complimentary(Complimentary),
    Ordinary(Ordinary),
}

/// The name of a day of a month other than the complementary days:
/// décade day `(day - 1) % 10 + 1`.
pub open spec fn is_weekday_of(w: Weekday, month: int, day: int) -> bool {
    match w {
        Weekday::Complimentary(c) => month == 13 && c.spec_value() == day,
        Weekday::Ordinary(o) => month != 13 && o.spec_value() == (day - 1) % 10 + 1,
    }
}

/// A festival of the complementary days.
#[derive(Debug, Clone, Copy, PartialEq, Eq, Structural)]
pub enum Complimentary {
    Vertu,
    Genie,
    Travail,
    #[allow(non_camel_case_types)]
    lOpinion,
    Recompenses,
    Revolution,
}

impl Complimentary {
    /// Position of the day, from 1.
    pub open spec fn spec_value(self) -> int {
        match self {
            Complimentary::Vertu => 1,
            Complimentary::Genie => 2,
            Complimentary::Travail => 3,
            Complimentary::lOpinion => 4,
            Complimentary::Recompenses => 5,
            Complimentary::Revolution => 6,
        }
    }

    /// Name of the day.
    pub open spec fn spec_name(self) -> Seq<char> {
        match self {
            Complimentary::Vertu => "La Fête de la Vertu"@,
            Complimentary::Genie => "La Fête du Génie"@,
            Complimentary::Travail => "La Fête du Travail"@,
            Complimentary::lOpinion => "La Fête de l'Opinion"@,
            Complimentary::Recompenses => "La Fête des Récompenses"@,
            Complimentary::Revolution => "La Fête de la Révolution"@,
        }
    }

    /// A day is determined by its position.
    pub proof fn lemma_value_determines(self, other: Complimentary)
        ensures
            self.spec_value() == other.spec_value() ==> self == other,
    {
    }

    /// The day at position `n`.
    pub fn day_of_week(n: i32) -> (r: Complimentary)
        requires
            1 <= n <= 6,
        ensures
            r.spec_value() == n,
    {
        match n {
            1 => Complimentary::Vertu,
            2 => Complimentary::Genie,
            3 => Complimentary::Travail,
            4 => Complimentary::lOpinion,
            5 => Complimentary::Recompenses,
            _ => Complimentary::Revolution,
        }
    }

    /// Name of the day.
    pub fn name(&self) -> (r: &'static str)
        ensures
            r@ == self.spec_name(),
    {
        match self {
            Complimentary::Vertu => "La Fête de la Vertu",
            Complimentary::Genie => "La Fête du Génie",
            Complimentary::Travail => "La Fête du Travail",
            Complimentary::lOpinion => "La Fête de l'Opinion",
            Complimentary::Recompenses => "La Fête des Récompenses",
            Complimentary::Revolution => "La Fête de la Révolution",
        }
    }
}

/// A day of the décade.
#[derive(Debug, Clone, Copy, PartialEq, Eq, Structural)]
pub enum Ordinary {
    Primidi,
    Duodi,
    Tridi,
    Quartidi,
    Quintidi,
    Sextidi,
    Septidi,
    Octidi,
    Nonidi,
    Decadi,
}

impl Ordinary {
    /// Position of the day, from 1.
    pub open spec fn spec_value(self) -> int {
        match self {
            Ordinary::Primidi => 1,
            Ordinary::Duodi => 2,
            Ordinary::Tridi => 3,
            Ordinary::Quartidi => 4,
            Ordinary::Quintidi => 5,
            Ordinary::Sextidi => 6,
            Ordinary::Septidi => 7,
            Ordinary::Octidi => 8,
            Ordinary::Nonidi => 9,
            Ordinary::Decadi => 10,
        }
    }

    /// Name of the day.
    pub open spec fn spec_name(self) -> Seq<char> {
        match self {
            Ordinary::Primidi => "Primidi"@,
            Ordinary::Duodi => "Duodi"@,
            Ordinary::Tridi => "Tridi"@,
            Ordinary::Quartidi => "Quartidi"@,
            Ordinary::Quintidi => "Quintidi"@,
            Ordinary::Sextidi => "Sextidi"@,
            Ordinary::Septidi => "Septidi"@,
            Ordinary::Octidi => "Octidi"@,
            Ordinary::Nonidi => "Nonidi"@,
            Ordinary::Decadi => "Décadi"@,
        }
    }

    /// A day is determined by its position.
    pub proof fn lemma_value_determines(self, other: Ordinary)
        ensures
            self.spec_value() == other.spec_value() ==> self == other,
    {
    }

    /// The day at position `n`.
    pub fn day_of_week(n: i32) -> (r: Ordinary)
        requires
            1 <= n <= 10,
        ensures
            r.spec_value() == n,
    {
        match n {
            1 => Ordinary::Primidi,
            2 => Ordinary::Duodi,
            3 => Ordinary::Tridi,
            4 => Ordinary::Quartidi,
            5 => Ordinary::Quintidi,
            6 => Ordinary::Sextidi,
            7 => Ordinary::Septidi,
            8 => Ordinary::Octidi,
            9 => Ordinary::Nonidi,
            _ => Ordinary::Decadi,
        }
    }

    /// Name of the day.
    pub fn name(&self) -> (r: &'static str)
        ensures
            r@ == self.spec_name(),
    {
        match self {
            Ordinary::Primidi => "Primidi",
            Ordinary::Duodi => "Duodi",
            Ordinary::Tridi => "Tridi",
            Ordinary::Quartidi => "Quartidi",
            Ordinary::Quintidi => "Quintidi",
            Ordinary::Sextidi => "Sextidi",
            Ordinary::Septidi => "Septidi",
            Ordinary::Octidi => "Octidi",
            Ordinary::Nonidi => "Nonidi",
            Ordinary::Decadi => "Décadi",
        }
    }
}

} // verus!
