use vstd::prelude::*;

verus! {

/// The background pattern drawn behind the canvas.
#[derive(Debug, Clone, Copy, PartialEq, Eq, Structural)]
pub enum GridStyle {
    NoGrid,
    Lines,
    HorizontalLines,
    CrossPlus,
    Dots,
}

/// The grid style as the user's saved preferences record it.
#[derive(Debug, Clone, Copy, PartialEq, Eq, Structural)]
pub enum PreferredGridStyle {
    NoGrid,
    Lines,
    HorizontalLines,
    CrossPlus,
    Dots,
}

impl GridStyle {
    /// The position of the variant in declaration order.
    pub open spec fn ordinal(self) -> nat {
        match self {
            GridStyle::NoGrid => 0,
            GridStyle::Lines => 1,
            GridStyle::HorizontalLines => 2,
            GridStyle::CrossPlus => 3,
            GridStyle::Dots => 4,
        }
    }

    /// The variant that `next` yields.
    pub open spec fn spec_next(self) -> GridStyle {
        match self {
            GridStyle::NoGrid => GridStyle::Lines,
            GridStyle::Lines => GridStyle::HorizontalLines,
            GridStyle::HorizontalLines => GridStyle::CrossPlus,
            GridStyle::CrossPlus => GridStyle::Dots,
            GridStyle::Dots => GridStyle::NoGrid,
        }
    }

    /// `next` applied `k` times.
    pub open spec fn advanced(self, k: nat) -> GridStyle
        decreases k,
    {
        if k == 0 {
            self
        } else {
            self.advanced((k - 1) as nat).spec_next()
        }
    }

    /// The label shown for the style in the user interface.
    pub open spec fn label(self) -> Seq<char> {
        match self {
            GridStyle::NoGrid => "None"@,
            GridStyle::Lines => "Grid"@,
            GridStyle::HorizontalLines => "Lines"@,
            GridStyle::CrossPlus => "Crosses"@,
            GridStyle::Dots => "Dots"@,
        }
    }

    /// The following style in declaration order, wrapping around.
    pub fn next(self) -> (n: Self)
        ensures
            n == self.spec_next(),
            n.ordinal() == (self.ordinal() + 1) % 5,
    {
        match self {
            GridStyle::NoGrid => GridStyle::Lines,
            GridStyle::Lines => GridStyle::HorizontalLines,
            GridStyle::HorizontalLines => GridStyle::CrossPlus,
            GridStyle::CrossPlus => GridStyle::Dots,
            GridStyle::Dots => GridStyle::NoGrid,
        }
    }

    /// The user-facing name of the style.
    pub fn name(self) -> (s: &'static str)
        ensures
            s@ == self.label(),
    {
        match self {
            GridStyle::NoGrid => "None",
            GridStyle::Lines => "Grid",
            GridStyle::HorizontalLines => "Lines",
            GridStyle::CrossPlus => "Crosses",
            GridStyle::Dots => "Dots",
        }
    }
}

impl Default for GridStyle {
    fn default() -> (g: Self)
        ensures
            g == GridStyle::NoGrid,
    {
        GridStyle::NoGrid
    }
}

impl PreferredGridStyle {
    /// The position of the variant in declaration order.
    pub open spec fn ordinal(self) -> nat {
        match self {
            PreferredGridStyle::NoGrid => 0,
            PreferredGridStyle::Lines => 1,
            PreferredGridStyle::HorizontalLines => 2,
            PreferredGridStyle::CrossPlus => 3,
            PreferredGridStyle::Dots => 4,
        }
    }
}

/// The grid style of a saved preference: the variant of the same name.
pub open spec fn style_of_preference(p: PreferredGridStyle) -> GridStyle {
    match p {
        PreferredGridStyle::NoGrid => GridStyle::NoGrid,
        PreferredGridStyle::Lines => GridStyle::Lines,
        PreferredGridStyle::HorizontalLines => GridStyle::HorizontalLines,
        PreferredGridStyle::CrossPlus => GridStyle::CrossPlus,
        PreferredGridStyle::Dots => GridStyle::Dots,
    }
}

/// The saved preference of a grid style: the variant of the same name.
pub open spec fn preference_of_style(g: GridStyle) -> PreferredGridStyle {
    match g {
        GridStyle::NoGrid => PreferredGridStyle::NoGrid,
        GridStyle::Lines => PreferredGridStyle::Lines,
        GridStyle::HorizontalLines => PreferredGridStyle::HorizontalLines,
        GridStyle::CrossPlus => PreferredGridStyle::CrossPlus,
        GridStyle::Dots => PreferredGridStyle::Dots,
    }
}

impl From<PreferredGridStyle> for GridStyle {
    fn from(pref: PreferredGridStyle) -> (g: Self)
        ensures
            g == style_of_preference(pref),
            g.ordinal() == pref.ordinal(),
    {
        match pref {
            PreferredGridStyle::NoGrid => GridStyle::NoGrid,
            PreferredGridStyle::Lines => GridStyle::Lines,
            PreferredGridStyle::HorizontalLines => GridStyle::HorizontalLines,
            PreferredGridStyle::CrossPlus => GridStyle::CrossPlus,
            PreferredGridStyle::Dots => GridStyle::Dots,
        }
    }
}

impl vstd::std_specs::convert::FromSpecImpl<PreferredGridStyle> for GridStyle {
    open spec fn obeys_from_spec() -> bool {
        true
    }

    open spec fn from_spec(pref: PreferredGridStyle) -> GridStyle {
        style_of_preference(pref)
    }
}

impl From<GridStyle> for PreferredGridStyle {
    fn from(style: GridStyle) -> (p: Self)
        ensures
            p == preference_of_style(style),
            p.ordinal() == style.ordinal(),
    {
        match style {
            GridStyle::NoGrid => PreferredGridStyle::NoGrid,
            GridStyle::Lines => PreferredGridStyle::Lines,
            GridStyle::HorizontalLines => PreferredGridStyle::HorizontalLines,
            GridStyle::CrossPlus => PreferredGridStyle::CrossPlus,
            GridStyle::Dots => PreferredGridStyle::Dots,
        }
    }
}

impl vstd::std_specs::convert::FromSpecImpl<GridStyle> for PreferredGridStyle {
    open spec fn obeys_from_spec() -> bool {
        true
    }

    open spec fn from_spec(style: GridStyle) -> PreferredGridStyle {
        preference_of_style(style)
    }
}

/// Converting a grid style to a saved preference and back gives the same
/// style, and the other way round: the two enums are in one-to-one
/// correspondence.
pub proof fn lemma_preference_round_trip(g: GridStyle, p: PreferredGridStyle)
    ensures
        style_of_preference(preference_of_style(g)) == g,
        preference_of_style(style_of_preference(p)) == p,
{
}

proof fn lemma_grid_style_advanced(g: GridStyle, k: nat)
    ensures
        g.advanced(k).ordinal() == (g.ordinal() + k) % 5,
    decreases k,
{
    if k > 0 {
        lemma_grid_style_advanced(g, (k - 1) as nat);
    }
}

/// Cycling `next` visits every grid style, each once, and comes back to
/// where it started after five steps.
pub proof fn lemma_grid_style_cycle(g: GridStyle, h: GridStyle)
    ensures
        g.advanced(5) == g,
        exists|k: nat| k < 5 && #[trigger] g.advanced(k) == h,
        forall|i: nat, j: nat| i < j < 5 ==> g.advanced(i) != g.advanced(j),
{
    lemma_grid_style_advanced(g, 5);
    let k = ((h.ordinal() + 5 - g.ordinal()) % 5) as nat;
    lemma_grid_style_advanced(g, k);
    assert(g.advanced(k) == h);
    assert forall|i: nat, j: nat| i < j < 5 implies g.advanced(i) != g.advanced(j) by {
        lemma_grid_style_advanced(g, i);
        lemma_grid_style_advanced(g, j);
    }
}

/// Every grid style has a non-empty name.
pub proof fn lemma_grid_style_names_nonempty(g: GridStyle)
    ensures
        g.label().len() > 0,
{
    reveal_strlit("None");
    reveal_strlit("Grid");
    reveal_strlit("Lines");
    reveal_strlit("Crosses");
    reveal_strlit("Dots");
}

} // verus!
