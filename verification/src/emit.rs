//! Passing a colour on only when it has changed.

use vstd::prelude::*;
use crate::prominent_color::Color;

verus! {

/// Remembers the colour last passed on to the light.
#[derive(Clone, Copy, Debug, PartialEq, Eq, Structural)]
pub struct ColorEmitter {
    pub last_value: Color,
}

impl ColorEmitter {
    /// What is passed on when `color` is observed after `last`: the colour
    /// itself if it differs, nothing if it is the same.
    pub open spec fn spec_emission(last: Color, color: Color) -> Option<Color> {
        if color == last {
            None
        } else {
            Some(color)
        }
    }

    /// All that is passed on when `colors` are observed in order, starting
    /// from `last`.
    pub open spec fn spec_emissions(last: Color, colors: Seq<Color>) -> Seq<Color>
        decreases colors.len(),
    {
        if colors.len() == 0 {
            Seq::empty()
        } else {
            let rest = Self::spec_emissions(colors[0], colors.drop_first());
            match Self::spec_emission(last, colors[0]) {
                Some(color) => seq![color] + rest,
                None => rest,
            }
        }
    }

    /// An emitter that takes the light to show the neutral colour.
    pub fn new() -> (emitter: ColorEmitter)
        ensures
            emitter.last_value == Color::spec_neutral(),
    {
        ColorEmitter { last_value: Color::neutral() }
    }

    /// Observes the colour of one more frame. The colour comes back if the
    /// light is to be set to it, which is the case exactly when it differs
    /// from the one observed before.
    pub fn observe(&mut self, color: Color) -> (emission: Option<Color>)
        ensures
            emission == Self::spec_emission(old(self).last_value, color),
            final(self).last_value == color,
    {
        let emission = if color == self.last_value {
            None
        } else {
            Some(color)
        };
        self.last_value = color;
        emission
    }
}

/// The same colour observed twice in a row is passed on at most once: the
/// second observation passes nothing on.
pub proof fn lemma_repeated_color_is_suppressed(last: Color, color: Color)
    ensures
        ColorEmitter::spec_emission(color, color) is None,
        ColorEmitter::spec_emissions(last, seq![color, color]) == ColorEmitter::spec_emissions(
            last,
            seq![color],
        ),
{
    let once = seq![color];
    let twice = seq![color, color];
    assert(twice.drop_first() =~= once);
    assert(once.drop_first() =~= Seq::<Color>::empty());
    assert(ColorEmitter::spec_emissions(color, Seq::<Color>::empty()) == Seq::<Color>::empty());
    assert(ColorEmitter::spec_emissions(color, once) =~= Seq::<Color>::empty());
}

/// What is passed on begins with a colour other than the one the light had.
pub proof fn lemma_first_emission_differs(last: Color, colors: Seq<Color>)
    ensures
        ColorEmitter::spec_emissions(last, colors).len() > 0 ==> ColorEmitter::spec_emissions(
            last,
            colors,
        )[0] != last,
    decreases colors.len(),
{
    if colors.len() > 0 {
        if colors[0] == last {
            lemma_first_emission_differs(last, colors.drop_first());
        }
    }
}

/// No two colours passed on one after the other are the same, whatever is
/// observed.
pub proof fn lemma_emissions_never_repeat(last: Color, colors: Seq<Color>, i: int)
    requires
        0 <= i,
        i + 1 < ColorEmitter::spec_emissions(last, colors).len(),
    ensures
        ColorEmitter::spec_emissions(last, colors)[i] != ColorEmitter::spec_emissions(
            last,
            colors,
        )[i + 1],
    decreases colors.len(),
{
    let rest = ColorEmitter::spec_emissions(colors[0], colors.drop_first());
    if colors[0] == last {
        lemma_emissions_never_repeat(colors[0], colors.drop_first(), i);
    } else if i == 0 {
        lemma_first_emission_differs(colors[0], colors.drop_first());
    } else {
        lemma_emissions_never_repeat(colors[0], colors.drop_first(), i - 1);
    }
}

} // verus!
