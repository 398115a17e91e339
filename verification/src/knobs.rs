//! The sliders of a picture's transform, and the keys on those that can move.

use crate::editor::{Editor, EditorView};
use crate::keyframes::{Animated, Interp};
use crate::model::Transform;
use crate::text::cat2;
use crate::time::Time;
use vstd::prelude::*;

verus! {

/// A slider of the transform panel, in the order it is shown: place, size, spin,
/// anchor, opacity.
#[derive(Clone, Copy, PartialEq, Eq, Structural, Debug)]
pub enum XfKnob {
    X,
    Y,
    Scale,
    ScaleX,
    ScaleY,
    Rotation,
    AnchorX,
    AnchorY,
    Opacity,
}

impl XfKnob {
    /// What the slider is called.
    pub open spec fn name(self) -> Seq<char> {
        match self {
            XfKnob::X => "X"@,
            XfKnob::Y => "Y"@,
            XfKnob::Scale => "Scale"@,
            XfKnob::ScaleX => "Scale X"@,
            XfKnob::ScaleY => "Scale Y"@,
            XfKnob::Rotation => "Rotation"@,
            XfKnob::AnchorX => "Anchor X"@,
            XfKnob::AnchorY => "Anchor Y"@,
            XfKnob::Opacity => "Opacity"@,
        }
    }

    pub fn label(self) -> (r: &'static str)
        ensures
            r@ == self.name(),
    {
        match self {
            XfKnob::X => "X",
            XfKnob::Y => "Y",
            XfKnob::Scale => "Scale",
            XfKnob::ScaleX => "Scale X",
            XfKnob::ScaleY => "Scale Y",
            XfKnob::Rotation => "Rotation",
            XfKnob::AnchorX => "Anchor X",
            XfKnob::AnchorY => "Anchor Y",
            XfKnob::Opacity => "Opacity",
        }
    }

    /// The least and the most the slider gives: thousandths, of a degree for the spin.
    pub open spec fn bounds(self) -> (int, int) {
        match self {
            XfKnob::X | XfKnob::Y | XfKnob::AnchorX | XfKnob::AnchorY => (-1000, 1000),
            XfKnob::Scale | XfKnob::ScaleX | XfKnob::ScaleY => (100, 4000),
            XfKnob::Rotation => (-180_000, 180_000),
            XfKnob::Opacity => (0, 1000),
        }
    }

    pub fn range(self) -> (r: (i32, i32))
        ensures
            (r.0 as int, r.1 as int) == self.bounds(),
    {
        match self {
            XfKnob::X | XfKnob::Y | XfKnob::AnchorX | XfKnob::AnchorY => (-1000, 1000),
            XfKnob::Scale | XfKnob::ScaleX | XfKnob::ScaleY => (100, 4000),
            XfKnob::Rotation => (-180_000, 180_000),
            XfKnob::Opacity => (0, 1000),
        }
    }

    /// Where the slider of a picture that does not move stands.
    pub open spec fn stands(self, x: Transform) -> Option<int> {
        match self {
            XfKnob::X => Some(x.x as int),
            XfKnob::Y => Some(x.y as int),
            XfKnob::Scale => match x.scale {
                Animated::Const(v) => Some(v as int),
                Animated::Curve(_) => None,
            },
            XfKnob::ScaleX => Some(x.scale_x as int),
            XfKnob::ScaleY => Some(x.scale_y as int),
            XfKnob::Rotation => Some(x.rotation as int),
            XfKnob::AnchorX => Some(x.anchor_x as int),
            XfKnob::AnchorY => Some(x.anchor_y as int),
            XfKnob::Opacity => match x.opacity {
                Animated::Const(v) => Some(v as int),
                Animated::Curve(_) => None,
            },
        }
    }

    /// Whether the slider has a diamond: only the size and the opacity can move.
    pub fn keyable(self) -> (r: bool)
        ensures
            r == (self is Scale || self is Opacity),
    {
        matches!(self, XfKnob::Scale | XfKnob::Opacity)
    }
}

/// The sliders of the panel. Nothing lies under the main track, so a clip has no
/// opacity.
pub open spec fn knobs(with_opacity: bool) -> Seq<XfKnob> {
    let all = seq![
        XfKnob::X,
        XfKnob::Y,
        XfKnob::Scale,
        XfKnob::ScaleX,
        XfKnob::ScaleY,
        XfKnob::Rotation,
        XfKnob::AnchorX,
        XfKnob::AnchorY,
    ];
    if with_opacity { all.push(XfKnob::Opacity) } else { all }
}

/// Law: every slider starts inside its range, so that none jumps when it is touched.
pub proof fn law_knobs_start_in_range(knob: XfKnob)
    ensures
        knob.stands(Transform::identity()) matches Some(v) && knob.bounds().0 <= v <= knob.bounds().1,
{
}

pub fn transform_knobs(with_opacity: bool) -> (r: Vec<XfKnob>)
    ensures
        r@ == knobs(with_opacity),
{
    let mut r: Vec<XfKnob> = Vec::new();
    r.push(XfKnob::X);
    r.push(XfKnob::Y);
    r.push(XfKnob::Scale);
    r.push(XfKnob::ScaleX);
    r.push(XfKnob::ScaleY);
    r.push(XfKnob::Rotation);
    r.push(XfKnob::AnchorX);
    r.push(XfKnob::AnchorY);
    if with_opacity {
        r.push(XfKnob::Opacity);
    }
    assert(r@ =~= knobs(with_opacity));
    r
}

/// A transform with `v` on a slider, at `t` where it follows a curve.
pub open spec fn knob_set(x: Transform, knob: XfKnob, t: Time, v: i32) -> Transform {
    match knob {
        XfKnob::X => Transform { x: v, ..x },
        XfKnob::Y => Transform { y: v, ..x },
        XfKnob::Scale => Transform { scale: x.scale.written(t, v), ..x },
        XfKnob::ScaleX => Transform { scale_x: v, ..x },
        XfKnob::ScaleY => Transform { scale_y: v, ..x },
        XfKnob::Rotation => Transform { rotation: v, ..x },
        XfKnob::AnchorX => Transform { anchor_x: v, ..x },
        XfKnob::AnchorY => Transform { anchor_y: v, ..x },
        XfKnob::Opacity => Transform { opacity: x.opacity.written(t, v), ..x },
    }
}

/// A transform with a key dropped or pulled at `t`.
pub open spec fn key_toggled(x: Transform, knob: XfKnob, t: Time, now: i32) -> Transform {
    match knob {
        XfKnob::Scale => Transform { scale: x.scale.toggled(t, now), ..x },
        XfKnob::Opacity => Transform { opacity: x.opacity.toggled(t, now), ..x },
        _ => x,
    }
}

/// A transform with the next velocity on the key at `t`.
pub open spec fn key_cycled(x: Transform, knob: XfKnob, t: Time) -> Transform {
    match knob {
        XfKnob::Scale => Transform { scale: x.scale.cycled(t), ..x },
        XfKnob::Opacity => Transform { opacity: x.opacity.cycled(t), ..x },
        _ => x,
    }
}

/// The curve a slider stands for; one that cannot move has none.
pub open spec fn knob_curve(x: Transform, knob: XfKnob) -> Option<Animated> {
    match knob {
        XfKnob::Scale => Some(x.scale),
        XfKnob::Opacity => Some(x.opacity),
        _ => None,
    }
}

impl EditorView {
    /// The selected picture's transform and where a key at the playhead goes.
    pub open spec fn keyed(self) -> Option<(Transform, Time)> {
        match (self.sel_look(), self.key_time()) {
            (Some(l), Some(t)) => Some((l.transform, t as Time)),
            _ => None,
        }
    }

    /// After a slider was moved: one step for the whole drag.
    pub open spec fn knob_written(self, knob: XfKnob, v: i32) -> EditorView {
        let e = self.pushed("xf-"@ + knob.name());
        match self.keyed() {
            Some((x, t)) => e.transformed(knob_set(x, knob, t, v)),
            None => e,
        }
    }

    /// After the diamond of a slider was clicked.
    pub open spec fn diamond_clicked(self, knob: XfKnob, now: i32) -> EditorView {
        let e = self.pushed("keyframe"@);
        (match self.keyed() {
            Some((x, t)) => e.transformed(key_toggled(x, knob, t, now)),
            None => e,
        }).says("Keyframe toggled at the playhead — set a second one elsewhere to animate."@)
    }

    /// After the velocity of the key at the playhead was clicked.
    pub open spec fn velocity_clicked(self, knob: XfKnob) -> EditorView {
        let e = self.pushed("keyframe-ease"@);
        (match self.keyed() {
            Some((x, t)) => e.transformed(key_cycled(x, knob, t)),
            None => e,
        }).says("Keyframe velocity changed."@)
    }
}

impl Editor {
    fn keyed_xf(&self) -> (r: Option<(Transform, Time)>)
        requires
            self@.wf(),
        ensures
            r == self@.keyed(),
    {
        match (self.selected_xf(), self.sel_key_time()) {
            (Some(x), Some(t)) => Some((x, t)),
            _ => None,
        }
    }

    /// Move a slider of the selected picture: on a curve the key at the playhead is
    /// set, and no other slider's curve is touched.
    pub fn write_knob(&mut self, knob: XfKnob, v: i32)
        requires
            old(self)@.wf(),
        ensures
            final(self)@ == old(self)@.knob_written(knob, v),
            final(self)@.wf(),
    {
        let found: Option<(Transform, Time)> = self.keyed_xf();
        self.push_undo(cat2("xf-", knob.label()).as_str());
        if let Some((x, t)) = found {
            let mut x: Transform = x;
            match knob {
                XfKnob::X => {
                    x.x = v;
                },
                XfKnob::Y => {
                    x.y = v;
                },
                XfKnob::Scale => {
                    x.scale = x.scale.clone().write(t, v);
                },
                XfKnob::ScaleX => {
                    x.scale_x = v;
                },
                XfKnob::ScaleY => {
                    x.scale_y = v;
                },
                XfKnob::Rotation => {
                    x.rotation = v;
                },
                XfKnob::AnchorX => {
                    x.anchor_x = v;
                },
                XfKnob::AnchorY => {
                    x.anchor_y = v;
                },
                XfKnob::Opacity => {
                    x.opacity = x.opacity.clone().write(t, v);
                },
            }
            self.set_selected_xf(x);
        }
    }

    /// Click the diamond of a slider: a key is dropped at the playhead, or the one
    /// there is pulled. `now` is what the slider's curve gives at the playhead.
    pub fn toggle_key(&mut self, knob: XfKnob, now: i32)
        requires
            old(self)@.wf(),
        ensures
            final(self)@ == old(self)@.diamond_clicked(knob, now),
            final(self)@.wf(),
    {
        let found: Option<(Transform, Time)> = self.keyed_xf();
        self.push_undo("keyframe");
        if let Some((x, t)) = found {
            let mut x: Transform = x;
            match knob {
                XfKnob::Scale => {
                    x.scale = x.scale.clone().toggle_key(t, now);
                },
                XfKnob::Opacity => {
                    x.opacity = x.opacity.clone().toggle_key(t, now);
                },
                _ => {},
            }
            self.set_selected_xf(x);
        }
        self.status = "Keyframe toggled at the playhead — set a second one elsewhere to animate.".to_owned();
    }

    /// Click the velocity of the key at the playhead.
    pub fn cycle_velocity(&mut self, knob: XfKnob)
        requires
            old(self)@.wf(),
        ensures
            final(self)@ == old(self)@.velocity_clicked(knob),
            final(self)@.wf(),
    {
        let found: Option<(Transform, Time)> = self.keyed_xf();
        self.push_undo("keyframe-ease");
        if let Some((x, t)) = found {
            let mut x: Transform = x;
            match knob {
                XfKnob::Scale => {
                    x.scale = x.scale.clone().cycle_interp(t);
                },
                XfKnob::Opacity => {
                    x.opacity = x.opacity.clone().cycle_interp(t);
                },
                _ => {},
            }
            self.set_selected_xf(x);
        }
        self.status = "Keyframe velocity changed.".to_owned();
    }

    /// Whether a slider of the selected picture follows a curve: its diamond is filled.
    pub fn field_animated(&self, knob: XfKnob) -> (r: bool)
        requires
            self@.wf(),
        ensures
            r == (self@.keyed() matches Some((x, _)) && knob_curve(x, knob) matches Some(a) && a is Curve),
    {
        match self.keyed_xf() {
            Some((x, _)) => match knob {
                XfKnob::Scale => x.scale.is_animated(),
                XfKnob::Opacity => x.opacity.is_animated(),
                _ => false,
            },
            None => false,
        }
    }

    /// The velocity of the key at the playhead, where a slider has one there.
    pub fn sel_key_interp(&self, knob: XfKnob) -> (r: Option<Interp>)
        requires
            self@.wf(),
        ensures
            r == match self@.keyed() {
                Some((x, t)) => match knob_curve(x, knob) {
                    Some(a) => a.ease_of(t),
                    None => None,
                },
                None => None,
            },
    {
        match self.keyed_xf() {
            Some((x, t)) => match knob {
                XfKnob::Scale => x.scale.key_interp(t),
                XfKnob::Opacity => x.opacity.key_interp(t),
                _ => None,
            },
            None => None,
        }
    }
}

/// Law: moving one slider leaves every other slider's curve as it was.
pub proof fn law_siblings_keep_their_curves(x: Transform, knob: XfKnob, other: XfKnob, t: Time, v: i32)
    requires
        other != knob,
    ensures
        knob_curve(knob_set(x, knob, t, v), other) == knob_curve(x, other),
        knob_curve(key_toggled(x, knob, t, v), other) == knob_curve(x, other),
        knob_curve(key_cycled(x, knob, t), other) == knob_curve(x, other),
{
}

/// Law: a knob sets the property it names and no other.
pub proof fn law_knobs(x: Transform, knob: XfKnob, other: XfKnob, t: Time, v: i32)
    ensures
        ({
            let y = knob_set(x, knob, t, v);
            &&& !(knob is Scale) && !(knob is Opacity) ==> knob.stands(y) == Some(v as int)
            &&& knob is Scale && x.scale is Const ==> y.scale == Animated::Const(v)
            &&& knob is Opacity && x.opacity is Const ==> y.opacity == Animated::Const(v)
            &&& other != knob ==> other.stands(y) == other.stands(x)
            &&& (y.flip_h, y.flip_v, y.cover, y.bg) == (x.flip_h, x.flip_v, x.cover, x.bg)
            &&& !(knob is Scale) ==> y.scale == x.scale
            &&& !(knob is Opacity) ==> y.opacity == x.opacity
        }),
        XfKnob::X.stands(x) == Some(x.x as int) && XfKnob::Y.stands(x) == Some(x.y as int),
        XfKnob::ScaleX.stands(x) == Some(x.scale_x as int) && XfKnob::ScaleY.stands(x) == Some(x.scale_y as int),
        XfKnob::Rotation.stands(x) == Some(x.rotation as int),
        XfKnob::AnchorX.stands(x) == Some(x.anchor_x as int) && XfKnob::AnchorY.stands(x) == Some(x.anchor_y as int),
        key_toggled(x, XfKnob::X, t, v) == x && key_cycled(x, XfKnob::X, t) == x,
        key_toggled(x, XfKnob::Scale, t, v) == (Transform { scale: x.scale.toggled(t, v), ..x }),
        key_toggled(x, XfKnob::Opacity, t, v) == (Transform { opacity: x.opacity.toggled(t, v), ..x }),
        key_cycled(x, XfKnob::Scale, t) == (Transform { scale: x.scale.cycled(t), ..x }),
        key_cycled(x, XfKnob::Opacity, t) == (Transform { opacity: x.opacity.cycled(t), ..x }),
{
}

/// Law: a knob, a diamond and a velocity button work on the selected picture's placement
/// at the playhead's key time; they leave everything else and can be undone.
pub proof fn law_knobs_work_on_the_selection(e: EditorView, knob: XfKnob, v: i32)
    requires
        e.selected matches Some(s) ==> e.reel.has(s),
        e.keyed() is Some,
        e.undo_tag.len() == 0,
    ensures
        ({
            let l = crate::looks::look_there(e);
            let t = (e.keyed()->0).1;
            &&& e.key_time()->0 as Time == t
            &&& crate::looks::look_becomes(
                e,
                e.knob_written(knob, v),
                crate::model::Look { transform: knob_set(l.transform, knob, t, v), ..l },
            )
            &&& crate::looks::look_becomes(
                e,
                e.diamond_clicked(knob, v),
                crate::model::Look { transform: key_toggled(l.transform, knob, t, v), ..l },
            )
            &&& crate::looks::look_becomes(
                e,
                e.velocity_clicked(knob),
                crate::model::Look { transform: key_cycled(l.transform, knob, t), ..l },
            )
            &&& crate::editor::one_edit(e, e.knob_written(knob, v))
            &&& crate::editor::one_edit(e, e.diamond_clicked(knob, v))
            &&& crate::editor::one_edit(e, e.velocity_clicked(knob))
        }),
{
    crate::editor::lemma_pushed_alone(e, "xf-"@ + knob.name());
    crate::editor::lemma_pushed_alone(e, "keyframe"@);
    crate::editor::lemma_pushed_alone(e, "keyframe-ease"@);
}

} // verus!
