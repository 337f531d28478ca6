//! The part of a picture that is shown.

use vstd::prelude::*;

use crate::number::{Single, ONE};

verus! {

/// The smallest zoom.
pub const MIN_ZOOM: u32 = 0x3dcc_cccd;

/// The largest zoom.
pub const MAX_ZOOM: u32 = 0x4180_0000;

/// Zoom and position of a preview.
#[derive(Debug, Clone, Copy, PartialEq, Eq)]
pub struct PreviewViewport {
    pub zoom: Single,
    pub pan: (Single, Single),
    pub anchor: (Single, Single),
    pub compare: bool,
    pub detached: bool,
}

/// The whole picture, once.
pub open spec fn whole_picture() -> PreviewViewport {
    PreviewViewport {
        zoom: Single { bits: ONE },
        pan: (Single { bits: 0 }, Single { bits: 0 }),
        anchor: (Single { bits: 0 }, Single { bits: 0 }),
        compare: false,
        detached: false,
    }
}

impl Default for PreviewViewport {
    fn default() -> (r: Self)
        ensures
            r == whole_picture(),
    {
        PreviewViewport {
            zoom: Single { bits: ONE },
            pan: (Single { bits: 0 }, Single { bits: 0 }),
            anchor: (Single { bits: 0 }, Single { bits: 0 }),
            compare: false,
            detached: false,
        }
    }
}

/// A zoom held between the smallest and the largest; what is not a number stays as it is.
pub open spec fn held_zoom(zoom: Single) -> Single {
    let least = Single { bits: MIN_ZOOM };
    let most = Single { bits: MAX_ZOOM };
    if zoom.nan() {
        zoom
    } else if zoom.rank() < least.rank() {
        least
    } else if zoom.rank() > most.rank() {
        most
    } else {
        zoom
    }
}

fn hold_zoom(zoom: Single) -> (r: Single)
    ensures
        r == held_zoom(zoom),
{
    let least = Single { bits: MIN_ZOOM };
    let most = Single { bits: MAX_ZOOM };
    if zoom.is_nan() {
        zoom
    } else if !least.is_at_most(zoom) {
        least
    } else if !zoom.is_at_most(most) {
        most
    } else {
        zoom
    }
}

impl PreviewViewport {
    /// The zoom.
    pub fn zoom(&self) -> (r: Single)
        ensures
            r == self.zoom,
    {
        self.zoom
    }

    /// The shift of the picture.
    pub fn pan(&self) -> (r: (Single, Single))
        ensures
            r == self.pan,
    {
        self.pan
    }

    /// The point that stayed in place when the zoom last changed.
    pub fn anchor(&self) -> (r: (Single, Single))
        ensures
            r == self.anchor,
    {
        self.anchor
    }

    /// Zooms by a factor around a point. A factor that is not positive and finite changes nothing.
    /// `product` multiplies, `quotient` divides, and `shift` moves a coordinate away from the
    /// anchor by a scale.
    pub fn zoom_by<P, Q, S>(
        &mut self,
        factor: Single,
        anchor: (Single, Single),
        product: P,
        quotient: Q,
        shift: S,
    ) where
        P: Fn(Single, Single) -> Single,
        Q: Fn(Single, Single) -> Single,
        S: Fn(Single, Single, Single) -> Single,

        requires
            forall|a: Single, b: Single| call_requires(product, (a, b)),
            forall|a: Single, b: Single| call_requires(quotient, (a, b)),
            forall|a: Single, b: Single, c: Single| call_requires(shift, (a, b, c)),
        ensures
            if factor.finite() && factor.rank() > 0 {
                exists|wanted: Single, scale: Single|
                    {
                        &&& #[trigger] call_ensures(product, (old(self).zoom, factor), wanted)
                        &&& #[trigger] call_ensures(
                            quotient,
                            (held_zoom(wanted), old(self).zoom),
                            scale,
                        )
                        &&& call_ensures(
                            shift,
                            (anchor.0, old(self).pan.0, scale),
                            final(self).pan.0,
                        )
                        &&& call_ensures(
                            shift,
                            (anchor.1, old(self).pan.1, scale),
                            final(self).pan.1,
                        )
                        &&& *final(self) == (PreviewViewport {
                            zoom: held_zoom(wanted),
                            pan: final(self).pan,
                            anchor,
                            ..*old(self)
                        })
                    }
            } else {
                *final(self) == *old(self)
            },
    {
        let zero = Single { bits: 0 };
        if !factor.is_finite() || factor.is_at_most(zero) {
            return;
        }
        let before = self.zoom;
        let wanted = product(before, factor);
        let held = hold_zoom(wanted);
        let scale = quotient(held, before);
        let x = shift(anchor.0, self.pan.0, scale);
        let y = shift(anchor.1, self.pan.1, scale);
        self.zoom = held;
        self.pan = (x, y);
        self.anchor = anchor;
    }

    /// Shifts the picture. `sum` adds.
    pub fn pan_by<A: Fn(Single, Single) -> Single>(&mut self, delta: (Single, Single), sum: A)
        requires
            forall|a: Single, b: Single| call_requires(sum, (a, b)),
        ensures
            call_ensures(sum, (old(self).pan.0, delta.0), final(self).pan.0),
            call_ensures(sum, (old(self).pan.1, delta.1), final(self).pan.1),
            *final(self) == (PreviewViewport { pan: final(self).pan, ..*old(self) }),
    {
        let x = sum(self.pan.0, delta.0);
        let y = sum(self.pan.1, delta.1);
        self.pan = (x, y);
    }

    /// Shows the whole picture again.
    pub fn reset(&mut self)
        ensures
            *final(self) == whole_picture(),
    {
        *self = PreviewViewport::default();
    }
}

/// A zoom that is a number stays between the smallest and the largest.
pub proof fn zoom_stays_in_range(zoom: Single)
    requires
        !zoom.nan(),
    ensures
        (Single { bits: MIN_ZOOM }).at_most(held_zoom(zoom)),
        held_zoom(zoom).at_most(Single { bits: MAX_ZOOM }),
{
}

} // verus!
