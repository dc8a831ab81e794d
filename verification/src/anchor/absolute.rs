//! Absolute anchor renderer: the target in absolute form.
use vstd::prelude::*;

use crate::anchor::{answers_fit, render_recorded, renders_by, Anchor, AnchorRenderer, Answers, RenderContext};
use crate::error::YankError;
use crate::fs::FileSystem;

verus! {

/// Renderer for [`crate::anchor::Anchor::Absolute`].
pub struct AbsoluteRenderer;

impl AnchorRenderer for AbsoluteRenderer {
    /// Always succeeds with the absolute form for some answer of the
    /// filesystem ([`crate::anchor::render_recorded`]).
    fn render<F: FileSystem>(&self, target: &str, ctx: &RenderContext<'_, F>) -> (r: Result<
        String,
        YankError,
    >)
        ensures
            exists|ans: Answers|
                #[trigger] answers_fit(Anchor::Absolute, target@, ctx.cwd@, ctx.git_root, ans)
                    && renders_by(Anchor::Absolute, target@, ctx.cwd@, ctx.home, ctx.git_root, ans, r),
    {
        let (r, ans) = render_recorded(&Anchor::Absolute, target, ctx);
        assert(answers_fit(Anchor::Absolute, target@, ctx.cwd@, ctx.git_root, ans@));
        r
    }
}

} // verus!
