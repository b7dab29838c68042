use mublog::blog::BlogContext;
use mublog::error::BlogError;
use mublog::pipeline::{Feature, FeatureRegistry, Pipeline, PipelineStage, PipelineStageLifetime};

enum DummyStage {
    S1,
    S2,
    S3,
}

impl PipelineStage for DummyStage {
    fn initialize(&self, ctx: &mut BlogContext) -> Result<(), BlogError> {
        match self {
            DummyStage::S1 => ctx.config.blog_author.push_str("1i"),
            DummyStage::S2 => ctx.config.blog_author.push_str("2i"),
            DummyStage::S3 => ctx.config.blog_author.push_str("3i"),
        }
        Ok(())
    }

    fn process(&self, ctx: &mut BlogContext) -> Result<(), BlogError> {
        match self {
            DummyStage::S1 => ctx.config.blog_author.push_str("1p"),
            DummyStage::S2 => ctx.config.blog_author.push_str("2p"),
            DummyStage::S3 => ctx.config.blog_author.push_str("3p"),
        }
        Ok(())
    }

    fn finalize(&self, ctx: &mut BlogContext) -> Result<(), BlogError> {
        match self {
            DummyStage::S1 => ctx.config.blog_author.push_str("1f"),
            DummyStage::S2 => ctx.config.blog_author.push_str("2f"),
            DummyStage::S3 => ctx.config.blog_author.push_str("3f"),
        }
        Ok(())
    }
}

#[derive(Clone)]
enum DummyFeature {
    A,
    B,
}

impl Feature for DummyFeature {
    fn register(&self, registry: &mut FeatureRegistry<DummyFeature>) {
        match self {
            DummyFeature::A => {
                registry.register(2, PipelineStageLifetime::PreProcess, DummyFeature::A);
                registry.register(3, PipelineStageLifetime::PostProcess, DummyFeature::A);
            }
            DummyFeature::B => {
                registry.register(2, PipelineStageLifetime::PreProcess, DummyFeature::B);
                registry.register(3, PipelineStageLifetime::PostProcess, DummyFeature::B);
            }
        }
    }

    fn run(
        &mut self,
        ctx: &mut BlogContext,
        pipeline_type: u64,
        lifetime: PipelineStageLifetime,
    ) -> Result<(), BlogError> {
        match self {
            DummyFeature::A => {
                if pipeline_type == 2 && lifetime == PipelineStageLifetime::PreProcess {
                    ctx.config.blog_author.push_str("[AAA]");
                } else if pipeline_type == 3 && lifetime == PipelineStageLifetime::PostProcess {
                    ctx.config.blog_author.push_str("[BBB]");
                }
            }
            DummyFeature::B => {
                if pipeline_type == 2 && lifetime == PipelineStageLifetime::PreProcess {
                    ctx.config.blog_author.push_str("[CCC]");
                } else if pipeline_type == 3 && lifetime == PipelineStageLifetime::PostProcess {
                    ctx.config.blog_author.push_str("[DDD]");
                }
            }
        }
        Ok(())
    }
}

#[test]
fn pipeline_stage_execution_order() {
    let ctx = BlogContext::default();
    let mut pipeline: Pipeline<DummyStage, DummyFeature> = Pipeline::new(ctx);
    pipeline.add_stage(DummyStage::S1, 1);
    pipeline.add_stage(DummyStage::S2, 2);
    pipeline.add_stage(DummyStage::S3, 3);
    let res = pipeline.run();
    assert!(res.is_ok());
    assert_eq!(pipeline.context.config.blog_author, "1i1p1f2i2p2f3i3p3f");
}

#[test]
fn pipeline_feature_stage_modification() {
    let ctx = BlogContext::default();
    let mut pipeline: Pipeline<DummyStage, DummyFeature> = Pipeline::new(ctx);
    pipeline.add_stage(DummyStage::S1, 1);
    pipeline.add_stage(DummyStage::S2, 2);
    pipeline.add_stage(DummyStage::S3, 3);
    pipeline.add_feature(DummyFeature::A);
    let res = pipeline.run();
    assert!(res.is_ok());
    assert_eq!(
        pipeline.context.config.blog_author,
        "1i1p1f2i[AAA]2p2f3i3p[BBB]3f"
    );
}

#[test]
fn pipeline_feature_execution_order_based_on_addition_order() {
    let ctx = BlogContext::default();
    let mut pipeline: Pipeline<DummyStage, DummyFeature> = Pipeline::new(ctx);
    pipeline.add_stage(DummyStage::S1, 1);
    pipeline.add_stage(DummyStage::S2, 2);
    pipeline.add_stage(DummyStage::S3, 3);
    pipeline.add_feature(DummyFeature::B);
    pipeline.add_feature(DummyFeature::A);
    let res = pipeline.run();
    assert!(res.is_ok());
    assert_eq!(
        pipeline.context.config.blog_author,
        "1i1p1f2i[CCC][AAA]2p2f3i3p[DDD][BBB]3f"
    );
}

enum FailingStage {
    Fine,
    BadProcess,
    Later,
}

impl PipelineStage for FailingStage {
    fn initialize(&self, ctx: &mut BlogContext) -> Result<(), BlogError> {
        match self {
            FailingStage::Fine => ctx.config.blog_author.push_str("1i"),
            FailingStage::BadProcess => ctx.config.blog_author.push_str("2i"),
            FailingStage::Later => ctx.config.blog_author.push_str("3i"),
        }
        Ok(())
    }

    fn process(&self, ctx: &mut BlogContext) -> Result<(), BlogError> {
        match self {
            FailingStage::Fine => {
                ctx.config.blog_author.push_str("1p");
                Ok(())
            }
            FailingStage::BadProcess => Err(BlogError::new("broken".to_string())),
            FailingStage::Later => {
                ctx.config.blog_author.push_str("3p");
                Ok(())
            }
        }
    }

    fn finalize(&self, ctx: &mut BlogContext) -> Result<(), BlogError> {
        match self {
            FailingStage::Fine => ctx.config.blog_author.push_str("1f"),
            FailingStage::BadProcess => ctx.config.blog_author.push_str("2f"),
            FailingStage::Later => ctx.config.blog_author.push_str("3f"),
        }
        Ok(())
    }
}

#[test]
fn pipeline_fail_fast_skips_later_stages() {
    let ctx = BlogContext::default();
    let mut pipeline: Pipeline<FailingStage, DummyFeature> = Pipeline::new(ctx);
    pipeline.add_stage(FailingStage::Fine, 1);
    pipeline.add_stage(FailingStage::BadProcess, 2);
    pipeline.add_stage(FailingStage::Later, 3);
    let res = pipeline.run();
    assert!(res.is_err());
    let err = res.unwrap_err();
    assert_eq!(err.message().as_str(), "Stage 2 failed during the process phase");
    assert_eq!(err.messages()[1], "broken");
    assert_eq!(pipeline.context.config.blog_author, "1i1p1f2i");
}

struct FailingFeature;

impl Feature for FailingFeature {
    fn register(&self, registry: &mut FeatureRegistry<FailingFeature>) {
        registry.register(1, PipelineStageLifetime::PreProcess, FailingFeature);
    }

    fn run(
        &mut self,
        _ctx: &mut BlogContext,
        _pipeline_type: u64,
        _lifetime: PipelineStageLifetime,
    ) -> Result<(), BlogError> {
        Err(BlogError::new("feature logic error".to_string()))
    }
}

enum OneStage {
    Only,
}

impl PipelineStage for OneStage {
    fn initialize(&self, _ctx: &mut BlogContext) -> Result<(), BlogError> {
        Ok(())
    }

    fn process(&self, _ctx: &mut BlogContext) -> Result<(), BlogError> {
        Ok(())
    }

    fn finalize(&self, _ctx: &mut BlogContext) -> Result<(), BlogError> {
        Ok(())
    }
}

#[test]
fn run_hooks_wraps_feature_failure() {
    let ctx = BlogContext::default();
    let mut pipeline: Pipeline<OneStage, FailingFeature> = Pipeline::new(ctx);
    pipeline.add_stage(OneStage::Only, 1);
    pipeline.add_feature(FailingFeature);
    let err = pipeline.run().unwrap_err();
    let chain = err.messages();
    assert_eq!(chain[0], "Stage execution failed during PreProcess step");
    assert_eq!(chain[1], "Feature execution failed");
    assert_eq!(chain[2], "feature logic error");
}
