//! Pipeline composition: an ordered catalog of stages, each applied to every
//! token of the working sequence where its gate holds.
//!
//! The pipeline is a linear stage-by-stage fold. For each registered stage,
//! in registration order, the working sequence of tokens is replaced by the
//! flattened output of applying the stage to each of its tokens; a token
//! whose gate the stage rejects passes through unchanged inside that
//! application. No stage observes tokens outside its own invocation and no
//! state is shared between stages, so ordering is the whole contract:
//! decomposition is registered before stages that assume decomposed input.

use crate::decomposition::CompatibilityDecompositionNormalizer;
use crate::decomposition::WholeLemmaDecompositionNormalizer;
use crate::decomposition::char_stage_spec;
use crate::decomposition::whole_stage_spec;
use crate::token::Token;
use crate::token::TokenView;
use vstd::prelude::*;

verus! {

/// One registered stage, dispatched by tag.
#[derive(Clone, Copy)]
pub enum Stage {
    /// The per-character compatibility-decomposition stage.
    CharDecomposition(CompatibilityDecompositionNormalizer),
    /// The whole-lemma compatibility-decomposition stage.
    WholeDecomposition(WholeLemmaDecompositionNormalizer),
}

/// The sequence of mathematical token values behind a sequence of tokens.
pub open spec fn views_of(ts: Seq<Token>) -> Seq<TokenView> {
    ts.map_values(|t: Token| t@)
}

/// Every token of the sequence has consistent offsets.
pub open spec fn all_wf(ts: Seq<TokenView>) -> bool {
    forall|i: int| 0 <= i < ts.len() ==> (#[trigger] ts[i]).wf()
}

/// What one stage yields for one token.
pub open spec fn stage_spec(s: Stage, t: TokenView) -> Seq<TokenView> {
    match s {
        Stage::CharDecomposition(_) => seq![char_stage_spec(t)],
        Stage::WholeDecomposition(_) => seq![whole_stage_spec(t)],
    }
}

/// One stage applied to each token of the working sequence, the outputs
/// flattened in order.
pub open spec fn stage_run_spec(s: Stage, ts: Seq<TokenView>) -> Seq<TokenView>
    decreases ts.len(),
{
    if ts.len() == 0 {
        Seq::empty()
    } else {
        stage_spec(s, ts[0]) + stage_run_spec(s, ts.drop_first())
    }
}

/// The whole pipeline: the stages folded over the working sequence in
/// registration order.
pub open spec fn pipeline_spec(stages: Seq<Stage>, ts: Seq<TokenView>) -> Seq<TokenView>
    decreases stages.len(),
{
    if stages.len() == 0 {
        ts
    } else {
        pipeline_spec(stages.drop_first(), stage_run_spec(stages[0], ts))
    }
}

/// Coverage is never lost silently: both decomposition stages emit exactly
/// one token per input token, so the pipeline's output stream has exactly as
/// many tokens as its input stream.
pub proof fn lemma_pipeline_preserves_count(stages: Seq<Stage>, ts: Seq<TokenView>)
    ensures
        pipeline_spec(stages, ts).len() == ts.len(),
    decreases stages.len(),
{
    if stages.len() > 0 {
        lemma_stage_run_preserves_count(stages[0], ts);
        lemma_pipeline_preserves_count(stages.drop_first(), stage_run_spec(stages[0], ts));
    }
}

/// One stage emits exactly one token for each token of the working sequence.
pub proof fn lemma_stage_run_preserves_count(s: Stage, ts: Seq<TokenView>)
    ensures
        stage_run_spec(s, ts).len() == ts.len(),
    decreases ts.len(),
{
    if ts.len() > 0 {
        lemma_stage_run_preserves_count(s, ts.drop_first());
    }
}

impl Stage {
    /// Applies this stage to one token, yielding its finite output sequence.
    /// Its gate is evaluated inside the stage: a rejected token passes
    /// through unchanged as the single output.
    pub fn apply(&self, token: Token) -> (r: Vec<Token>)
        requires
            token@.wf(),
        ensures
            views_of(r@) == stage_spec(*self, token@),
            all_wf(views_of(r@)),
    {
        let r = match self {
            Stage::CharDecomposition(n) => n.normalize(token),
            Stage::WholeDecomposition(n) => n.normalize(token),
        };
        proof {
            assert(views_of(r@) =~= stage_spec(*self, token@));
        }
        r
    }
}

/// An ordered catalog of normalizer stages.
pub struct Pipeline {
    /// The registered stages, applied in order.
    pub stages: Vec<Stage>,
}

/// Dropping the first token of a sequence commutes with taking views.
proof fn lemma_views_of_drop_first(ts: Seq<Token>)
    requires
        ts.len() > 0,
    ensures
        views_of(ts.drop_first()) == views_of(ts).drop_first(),
{
    assert(views_of(ts.drop_first()) =~= views_of(ts).drop_first());
}

impl Pipeline {
    /// An empty pipeline: running it returns the token stream unchanged.
    pub fn new() -> (p: Pipeline)
        ensures
            p.stages@.len() == 0,
    {
        Pipeline { stages: Vec::new() }
    }

    /// Registers one more stage at the end of the catalog. Registration
    /// order is application order.
    pub fn register(&mut self, stage: Stage)
        ensures
            final(self).stages@ == old(self).stages@.push(stage),
    {
        self.stages.push(stage);
    }

    /// Applies one stage across a working sequence of tokens, flattening the
    /// per-token outputs in order.
    fn run_stage(stage: &Stage, tokens: Vec<Token>) -> (r: Vec<Token>)
        requires
            all_wf(views_of(tokens@)),
        ensures
            views_of(r@) == stage_run_spec(*stage, views_of(tokens@)),
            all_wf(views_of(r@)),
    {
        let ghost orig: Seq<Token> = tokens@;
        let mut rest = tokens;
        let mut out: Vec<Token> = Vec::new();
        proof {
            assert(views_of(out@) =~= Seq::<TokenView>::empty());
            assert(views_of(out@) + stage_run_spec(*stage, views_of(rest@)) =~= stage_run_spec(
                *stage,
                views_of(orig),
            ));
        }
        while rest.len() > 0
            invariant
                all_wf(views_of(rest@)),
                all_wf(views_of(out@)),
                views_of(out@) + stage_run_spec(*stage, views_of(rest@)) == stage_run_spec(
                    *stage,
                    views_of(orig),
                ),
            decreases rest.len(),
        {
            let ghost rest_before: Seq<Token> = rest@;
            let ghost out_before: Seq<Token> = out@;
            let t = rest.remove(0);
            proof {
                assert(rest@ =~= rest_before.drop_first());
                lemma_views_of_drop_first(rest_before);
                assert(views_of(rest_before)[0] == t@);
                assert(forall|i: int|
                    0 <= i < rest@.len() ==> views_of(rest@)[i] == views_of(rest_before)[i + 1]);
            }
            let mut produced = stage.apply(t);
            out.append(&mut produced);
            proof {
                assert(views_of(out@) =~= views_of(out_before) + stage_spec(*stage, t@));
                assert(views_of(out@) + stage_run_spec(*stage, views_of(rest@)) =~= views_of(
                    out_before,
                ) + (stage_spec(*stage, t@) + stage_run_spec(*stage, views_of(rest@))));
                assert(stage_spec(*stage, t@) + stage_run_spec(*stage, views_of(rest@))
                    == stage_run_spec(*stage, views_of(rest_before)));
            }
        }
        proof {
            assert(views_of(rest@) =~= Seq::<TokenView>::empty());
            assert(views_of(out@) + stage_run_spec(*stage, views_of(rest@)) =~= views_of(out@));
        }
        out
    }

    /// Runs the whole pipeline over a token stream: each stage in
    /// registration order, each applied to every token of the current
    /// working sequence. The final sequence is the normalized token stream,
    /// of the same or greater length, every token with consistent offsets.
    pub fn run(&self, tokens: Vec<Token>) -> (r: Vec<Token>)
        requires
            all_wf(views_of(tokens@)),
        ensures
            views_of(r@) == pipeline_spec(self.stages@, views_of(tokens@)),
            all_wf(views_of(r@)),
    {
        let ghost orig: Seq<Token> = tokens@;
        let mut current = tokens;
        let mut i: usize = 0;
        proof {
            assert(self.stages@.skip(0) =~= self.stages@);
        }
        while i < self.stages.len()
            invariant
                i <= self.stages@.len(),
                all_wf(views_of(current@)),
                pipeline_spec(self.stages@.skip(i as int), views_of(current@)) == pipeline_spec(
                    self.stages@,
                    views_of(orig),
                ),
            decreases self.stages@.len() - i,
        {
            let ghost before: Seq<Token> = current@;
            let stage = self.stages[i];
            current = Self::run_stage(&stage, current);
            proof {
                let tail = self.stages@.skip(i as int);
                assert(tail[0] == self.stages@[i as int]);
                assert(tail.drop_first() =~= self.stages@.skip(i + 1 as int));
                assert(pipeline_spec(tail, views_of(before)) == pipeline_spec(
                    tail.drop_first(),
                    stage_run_spec(tail[0], views_of(before)),
                ));
            }
            i += 1;
        }
        proof {
            assert(self.stages@.skip(self.stages@.len() as int) =~= Seq::<Stage>::empty());
        }
        current
    }
}

} // verus!
