//! Themes: pure, total, composable translations between tag universes.
//!
//! A themed text repaints exactly the same cells as the original text —
//! width and fit are tag-independent — with every literal segment's tag
//! rewritten by the theme before it reaches the canvas.

use vstd::prelude::*;

use crate::style::Ansi;
use crate::text::{Text, TextSegment};

verus! {

/// A pure translation of styles, closed under composition.
pub enum Theme {
    /// Leave every style as it is.
    Identity,
    /// Strip every style: everything becomes plain.
    Clean,
    /// Apply the first theme, then the second.
    Chain(Box<Theme>, Box<Theme>),
}

/// What a theme does to one style.
pub open spec fn translate_spec(theme: Theme, tag: Ansi) -> Ansi
    decreases theme,
{
    match theme {
        Theme::Identity => tag,
        Theme::Clean => Ansi::plain_spec(),
        Theme::Chain(a, b) => translate_spec(*b, translate_spec(*a, tag)),
    }
}

/// The themed text has the same shape as the original: the same overflow
/// policy, the same literal text, every literal tag translated, and every
/// nested text themed recursively.
pub open spec fn is_themed_text(r: Text, t: Text, theme: Theme) -> bool
    decreases t,
{
    &&& r.overflow_behavior == t.overflow_behavior
    &&& r.segments@.len() == t.segments@.len()
    &&& forall|i: int|
        0 <= i < t.segments@.len() ==> is_themed_seg(
            r.segments@[i],
            #[trigger] t.segments@[i],
            theme,
        )
}

pub open spec fn is_themed_seg(r: TextSegment, s: TextSegment, theme: Theme) -> bool
    decreases s,
{
    match (r, s) {
        (TextSegment::Segment(rs, rt), TextSegment::Segment(ss, st)) => rs@ == ss@ && rt
            == translate_spec(theme, st),
        (TextSegment::Renderable(rb), TextSegment::Renderable(sb)) => is_themed_text(
            *rb,
            *sb,
            theme,
        ),
        _ => false,
    }
}

impl Theme {
    /// Translate one style. Chained themes compose: the first theme's
    /// output is the second theme's input.
    pub fn translate(&self, tag: Ansi) -> (r: Ansi)
        ensures
            r == translate_spec(*self, tag),
        decreases *self,
    {
        match self {
            Theme::Identity => tag,
            Theme::Clean => Ansi::plain(),
            Theme::Chain(a, b) => b.translate(a.translate(tag)),
        }
    }
}

/// Composition is definitional: chaining two themes translates through
/// the first and then the second.
pub proof fn lemma_chain_composes(a: Theme, b: Theme, tag: Ansi)
    ensures
        translate_spec(Theme::Chain(Box::new(a), Box::new(b)), tag) == translate_spec(
            b,
            translate_spec(a, tag),
        ),
{
}

/// Rewrite every literal tag of a text through a theme; nested content is
/// themed recursively and the overflow policy is untouched.
#[verifier::loop_isolation(false)]
pub fn themed(t: &Text, theme: &Theme) -> (r: Text)
    ensures
        is_themed_text(r, *t, *theme),
    decreases *t,
{
    let mut segments: Vec<TextSegment> = Vec::new();
    let n = t.segments.len();
    let mut i: usize = 0;
    while i < n
        invariant
            i <= n,
            segments@.len() == i,
            forall|j: int| 0 <= j < i ==> is_themed_seg(
                segments@[j],
                #[trigger] t.segments@[j],
                *theme,
            ),
        decreases n - i,
    {
        let seg = &t.segments[i];
        let out = match seg {
            TextSegment::Segment(s, tag) => TextSegment::Segment(
                s.clone(),
                theme.translate(*tag),
            ),
            TextSegment::Renderable(b) => {
                proof {
                    assert(decreases_to!(t.segments@ => t.segments@[i as int]));
                }
                TextSegment::Renderable(Box::new(themed(b, theme)))
            },
        };
        segments.push(out);
        i += 1;
    }
    Text { segments, overflow_behavior: t.overflow_behavior }
}

} // verus!
