use vstd::prelude::*;

verus! {

/// Semantic role of a status colour.
#[derive(Clone, Copy, Debug, PartialEq, Eq, Structural)]
pub enum Sentiment {
    Danger,
    Warning,
    Success,
    Info,
}

/// Prototype Oklab hue of each sentiment, in whole degrees.
pub open spec fn spec_prototype_hue(s: Sentiment) -> nat {
    match s {
        Sentiment::Danger => 18,
        Sentiment::Warning => 67,
        Sentiment::Success => 145,
        Sentiment::Info => 240,
    }
}

/// Lowest hue, in whole degrees, that a sentiment may be resolved to.
pub open spec fn spec_hue_floor(s: Sentiment) -> Option<nat> {
    match s {
        Sentiment::Warning => Some(45),
        _ => None,
    }
}

impl Sentiment {
    /// The hue (degrees) that identifies this sentiment before any
    /// displacement away from a brand hue.
    pub fn prototype_hue(self) -> (h: u16)
        ensures
            h == spec_prototype_hue(self),
    {
        match self {
            Sentiment::Danger => 18,
            Sentiment::Warning => 67,
            Sentiment::Success => 145,
            Sentiment::Info => 240,
        }
    }

    /// The lower bound (degrees) on the resolved hue, if this sentiment has
    /// one: a warning must never slide into the red range.
    pub fn hue_floor(self) -> (f: Option<u16>)
        ensures
            f matches Some(v) ==> spec_hue_floor(self) == Some(v as nat),
            f is None <==> spec_hue_floor(self) is None,
    {
        match self {
            Sentiment::Warning => Some(45),
            _ => None,
        }
    }
}

/// Every prototype hue is a proper angle in `[0, 360)`, and the four
/// prototypes are pairwise distinct.
pub proof fn lemma_prototype_hues_distinct(a: Sentiment, b: Sentiment)
    ensures
        spec_prototype_hue(a) < 360,
        spec_prototype_hue(a) == spec_prototype_hue(b) <==> a == b,
{
}

/// A hue floor never lies above the sentiment's own prototype: a sentiment
/// that is not displaced keeps its prototype hue when the floor is applied.
pub proof fn lemma_floor_keeps_prototype(s: Sentiment)
    ensures
        spec_hue_floor(s) matches Some(f) ==> f <= spec_prototype_hue(s),
{
}

} // verus!
