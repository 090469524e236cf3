//! Properties of the generated workflow files: which jobs they hold.
use vstd::prelude::*;
use vstd::string::*;
use crate::cicd::{PipelineConfig, workflow_text, workflow_head, workflow_cache, workflow_build, workflow_test,
    workflow_deploy, workflow_release, test_intro, env_block, test_reports};

verus! {

/// Whether `w` holds `sub` at some position.
pub open spec fn holds_text(w: Seq<char>, sub: Seq<char>) -> bool {
    exists|i: int| 0 <= i && i + sub.len() <= w.len() && #[trigger] w.subrange(i, i + sub.len()) == sub
}

/// `a + x + c` holds the text that `x` begins with.
proof fn lemma_holds_prefix(a: Seq<char>, x: Seq<char>, c: Seq<char>, sub: Seq<char>)
    requires
        sub.len() <= x.len(),
        x.subrange(0, sub.len() as int) == sub,
    ensures
        holds_text(a + x + c, sub),
{
    let w = a + x + c;
    assert(w.subrange(a.len() as int, (a.len() + sub.len()) as int) =~= sub);
}

/// The test job begins with its header.
proof fn lemma_test_header(c: &PipelineConfig)
    requires
        c.test_config is Some,
    ensures
        workflow_test(c).len() >= 9,
        workflow_test(c).subrange(0, 9) == "\n  test:\n"@,
{
    reveal_strlit("\n  test:\n");
    let t = c.test_config->Some_0;
    assert(workflow_test(c) =~= "\n  test:\n"@ + (test_intro(t).subrange(9, test_intro(t).len() as int)
        + env_block(t.environment@) + test_reports(t)));
    assert(workflow_test(c).subrange(0, 9) =~= "\n  test:\n"@);
}

/// The deploy job begins with its header and the job it follows.
proof fn lemma_deploy_header(c: &PipelineConfig, sub: Seq<char>)
    requires
        sub == (if c.test_config is Some { "\n  deploy:\n    needs: test\n"@ } else { "\n  deploy:\n    needs: build\n"@ }),
    ensures
        sub.len() <= workflow_deploy(c).len(),
        workflow_deploy(c).subrange(0, sub.len() as int) == sub,
{
    reveal_strlit("\n  deploy:\n");
    reveal_strlit("    needs: test\n");
    reveal_strlit("    needs: build\n");
    reveal_strlit("\n  deploy:\n    needs: test\n");
    reveal_strlit("\n  deploy:\n    needs: build\n");
    let n: Seq<char> = if c.test_config is Some { "    needs: test\n"@ } else { "    needs: build\n"@ };
    assert(sub =~= "\n  deploy:\n"@ + n);
    let d = workflow_deploy(c);
    assert(d.subrange(0, sub.len() as int) =~= sub);
}

/// The release job begins with its header.
proof fn lemma_release_header(c: &PipelineConfig)
    requires
        c.release_config is Some,
    ensures
        "\n  release:\n    needs: deploy\n"@.len() <= workflow_release(c).len(),
        workflow_release(c).subrange(0, "\n  release:\n    needs: deploy\n"@.len() as int) == "\n  release:\n    needs: deploy\n"@,
{
    reveal_strlit("\n  release:\n");
    reveal_strlit("    needs: deploy\n");
    reveal_strlit("\n  release:\n    needs: deploy\n");
    let sub = "\n  release:\n    needs: deploy\n"@;
    assert(sub =~= "\n  release:\n"@ + "    needs: deploy\n"@);
    let r = workflow_release(c);
    assert(r.subrange(0, sub.len() as int) =~= sub);
}

/// A workflow of a pipeline with tests holds the test job; its deploy job
/// follows the tests when there are any and the build otherwise; and a pipeline
/// with releases holds the release job after the deploy job.
pub proof fn law_workflow_jobs(c: &PipelineConfig)
    ensures
        c.test_config is Some ==> holds_text(workflow_text(c), "\n  test:\n"@),
        c.test_config is Some ==> holds_text(workflow_text(c), "\n  deploy:\n    needs: test\n"@),
        c.test_config is None ==> holds_text(workflow_text(c), "\n  deploy:\n    needs: build\n"@),
        c.release_config is Some ==> holds_text(workflow_text(c), "\n  release:\n    needs: deploy\n"@),
{
    let head = workflow_head(c) + workflow_cache(c) + workflow_build(c);
    let t = workflow_test(c);
    let d = workflow_deploy(c);
    let r = workflow_release(c);
    assert(workflow_text(c) == head + t + d + r);
    if c.test_config is Some {
        lemma_test_header(c);
        lemma_holds_prefix(head, t, d + r, "\n  test:\n"@);
        assert(head + t + (d + r) =~= head + t + d + r);
    }
    let sub: Seq<char> = if c.test_config is Some { "\n  deploy:\n    needs: test\n"@ } else { "\n  deploy:\n    needs: build\n"@ };
    lemma_deploy_header(c, sub);
    lemma_holds_prefix(head + t, d, r, sub);
    if c.release_config is Some {
        lemma_release_header(c);
        lemma_holds_prefix(head + t + d, r, Seq::empty(), "\n  release:\n    needs: deploy\n"@);
        assert(head + t + d + r + Seq::<char>::empty() =~= head + t + d + r);
    }
}

} // verus!
