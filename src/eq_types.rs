use vstd::prelude::*;

verus! {

/// Shape of one parametric equalizer band.
#[derive(Debug, Clone, Copy, PartialEq, Eq, Structural)]
pub enum FilterType {
    /// Bell curve centred on the band frequency.
    Peaking,
    /// Shelf that affects frequencies below the cutoff.
    LowShelf,
    /// Shelf that affects frequencies above the cutoff.
    HighShelf,
}

/// The filter abbreviation used in equalizer configuration lines.
pub open spec fn eapo_code_spec(f: FilterType) -> Seq<char> {
    match f {
        FilterType::Peaking => "PK"@,
        FilterType::LowShelf => "LSC"@,
        FilterType::HighShelf => "HSC"@,
    }
}

impl FilterType {
    /// Abbreviation written in a `Filter: ON <code> Fc ...` configuration line.
    pub fn to_eapo_code(&self) -> (r: &'static str)
        ensures
            r@ == eapo_code_spec(*self),
    {
        match self {
            FilterType::Peaking => "PK",
            FilterType::LowShelf => "LSC",
            FilterType::HighShelf => "HSC",
        }
    }
}

/// Whether the equalizer is switched on when settings do not say otherwise.
pub fn default_eq_enabled() -> (r: bool)
    ensures
        r,
{
    true
}

} // verus!
