//! The fixed set of cached upstream sources and their wire names.
use vstd::prelude::*;

verus! {

/// One logical series of the multi-source latest-value cache.
#[derive(PartialEq, Eq, Structural, Clone, Copy, Debug)]
pub enum SourceKind {
    /// Astronomy image of the day.
    Apod,
    /// Near-earth objects, rolling two-day window.
    Neo,
    /// Solar-flare events, rolling five-day window.
    Flr,
    /// Coronal-mass-ejection events, rolling five-day window.
    Cme,
    /// Next launch.
    Spacex,
}

/// The wire name of a source.
pub open spec fn source_key(s: SourceKind) -> Seq<char> {
    match s {
        SourceKind::Apod => "apod"@,
        SourceKind::Neo => "neo"@,
        SourceKind::Flr => "flr"@,
        SourceKind::Cme => "cme"@,
        SourceKind::Spacex => "spacex"@,
    }
}

/// The source a wire name denotes, if any.
pub open spec fn parse_source_spec(t: Seq<char>) -> Option<SourceKind> {
    if t == "apod"@ {
        Some(SourceKind::Apod)
    } else if t == "neo"@ {
        Some(SourceKind::Neo)
    } else if t == "flr"@ {
        Some(SourceKind::Flr)
    } else if t == "cme"@ {
        Some(SourceKind::Cme)
    } else if t == "spacex"@ {
        Some(SourceKind::Spacex)
    } else {
        None
    }
}

impl SourceKind {
    /// The wire name of this source.
    pub fn name(&self) -> (r: String)
        ensures
            r@ == source_key(*self),
    {
        match self {
            SourceKind::Apod => String::from_str("apod"),
            SourceKind::Neo => String::from_str("neo"),
            SourceKind::Flr => String::from_str("flr"),
            SourceKind::Cme => String::from_str("cme"),
            SourceKind::Spacex => String::from_str("spacex"),
        }
    }

    /// Parses a wire name.
    pub fn parse(t: &String) -> (r: Option<SourceKind>)
        ensures
            r == parse_source_spec(t@),
    {
        if t.eq(&String::from_str("apod")) {
            Some(SourceKind::Apod)
        } else if t.eq(&String::from_str("neo")) {
            Some(SourceKind::Neo)
        } else if t.eq(&String::from_str("flr")) {
            Some(SourceKind::Flr)
        } else if t.eq(&String::from_str("cme")) {
            Some(SourceKind::Cme)
        } else if t.eq(&String::from_str("spacex")) {
            Some(SourceKind::Spacex)
        } else {
            None
        }
    }
}

} // verus!
