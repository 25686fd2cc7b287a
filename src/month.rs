//! The thirteen months of the Republican year, the last being the
//! complementary days.

use vstd::prelude::*;

verus! {

/// A month of the Republican year.
#[derive(Debug, Clone, Copy, PartialEq, Eq, Structural)]
pub enum Month {
    Vendemiaire,
    Brumaire,
    Frimaire,
    Nivose,
    Pluviose,
    Ventose,
    Germinal,
    Floreal,
    Prairial,
    Messidor,
    Thermidor,
    Fructidor,
    Complementaires,
}

impl Month {
    /// Number of the month, from 1 to 13.
    pub open spec fn spec_value(self) -> int {
        match self {
            Month::Vendemiaire => 1,
            Month::Brumaire => 2,
            Month::Frimaire => 3,
            Month::Nivose => 4,
            Month::Pluviose => 5,
            Month::Ventose => 6,
            Month::Germinal => 7,
            Month::Floreal => 8,
            Month::Prairial => 9,
            Month::Messidor => 10,
            Month::Thermidor => 11,
            Month::Fructidor => 12,
            Month::Complementaires => 13,
        }
    }

    /// Name of the month.
    pub open spec fn spec_name(self) -> Seq<char> {
        match self {
            Month::Vendemiaire => "Vendémiaire"@,
            Month::Brumaire => "Brumaire"@,
            Month::Frimaire => "Frimaire"@,
            Month::Nivose => "Nivôse"@,
            Month::Pluviose => "Pluviôse"@,
            Month::Ventose => "Ventôse"@,
            Month::Germinal => "Germinal"@,
            Month::Floreal => "Floréal"@,
            Month::Prairial => "Prairial"@,
            Month::Messidor => "Messidor"@,
            Month::Thermidor => "Thermidor"@,
            Month::Fructidor => "Fructidor"@,
            Month::Complementaires => "Complémentaires"@,
        }
    }

    /// A month is determined by its number.
    pub proof fn lemma_value_determines(self, other: Month)
        ensures
            self.spec_value() == other.spec_value() ==> self == other,
    {
    }

    /// Number of the month, from 1 to 13.
    pub fn value(&self) -> (r: u8)
        ensures
            r == self.spec_value(),
    {
        match self {
            Month::Vendemiaire => 1,
            Month::Brumaire => 2,
            Month::Frimaire => 3,
            Month::Nivose => 4,
            Month::Pluviose => 5,
            Month::Ventose => 6,
            Month::Germinal => 7,
            Month::Floreal => 8,
            Month::Prairial => 9,
            Month::Messidor => 10,
            Month::Thermidor => 11,
            Month::Fructidor => 12,
            Month::Complementaires => 13,
        }
    }

    /// The month that follows, Vendémiaire after the complementary days.
    pub fn next_month(&self) -> (r: Month)
        ensures
            r.spec_value() == self.spec_value() % 13 + 1,
    {
        match self {
            Month::Vendemiaire => Month::Brumaire,
            Month::Brumaire => Month::Frimaire,
            Month::Frimaire => Month::Nivose,
            Month::Nivose => Month::Pluviose,
            Month::Pluviose => Month::Ventose,
            Month::Ventose => Month::Germinal,
            Month::Germinal => Month::Floreal,
            Month::Floreal => Month::Prairial,
            Month::Prairial => Month::Messidor,
            Month::Messidor => Month::Thermidor,
            Month::Thermidor => Month::Fructidor,
            Month::Fructidor => Month::Complementaires,
            Month::Complementaires => Month::Vendemiaire,
        }
    }

    /// The month that precedes, the complementary days before Vendémiaire.
    pub fn previous_month(&self) -> (r: Month)
        ensures
            r.spec_value() == (self.spec_value() + 11) % 13 + 1,
    {
        match self {
            Month::Vendemiaire => Month::Complementaires,
            Month::Brumaire => Month::Vendemiaire,
            Month::Frimaire => Month::Brumaire,
            Month::Nivose => Month::Frimaire,
            Month::Pluviose => Month::Nivose,
            Month::Ventose => Month::Pluviose,
            Month::Germinal => Month::Ventose,
            Month::Floreal => Month::Germinal,
            Month::Prairial => Month::Floreal,
            Month::Messidor => Month::Prairial,
            Month::Thermidor => Month::Messidor,
            Month::Fructidor => Month::Thermidor,
            Month::Complementaires => Month::Fructidor,
        }
    }

    /// The month numbered `n`.
    pub fn nth(n: u8) -> (r: Month)
        requires
            1 <= n <= 13,
        ensures
            r.spec_value() == n,
    {
        match n {
            1 => Month::Vendemiaire,
            2 => Month::Brumaire,
            3 => Month::Frimaire,
            4 => Month::Nivose,
            5 => Month::Pluviose,
            6 => Month::Ventose,
            7 => Month::Germinal,
            8 => Month::Floreal,
            9 => Month::Prairial,
            10 => Month::Messidor,
            11 => Month::Thermidor,
            12 => Month::Fructidor,
            _ => Month::Complementaires,
        }
    }

    /// Name of the month.
    pub fn name(&self) -> (r: &'static str)
        ensures
            r@ == self.spec_name(),
    {
        match self {
            Month::Vendemiaire => "Vendémiaire",
            Month::Brumaire => "Brumaire",
            Month::Frimaire => "Frimaire",
            Month::Nivose => "Nivôse",
            Month::Pluviose => "Pluviôse",
            Month::Ventose => "Ventôse",
            Month::Germinal => "Germinal",
            Month::Floreal => "Floréal",
            Month::Prairial => "Prairial",
            Month::Messidor => "Messidor",
            Month::Thermidor => "Thermidor",
            Month::Fructidor => "Fructidor",
            Month::Complementaires => "Complémentaires",
        }
    }
}

} // verus!
