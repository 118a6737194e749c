use vstd::prelude::*;
use crate::pipeline::{Condition, Pipeline, string_views};
use crate::project::{Branch, Project};

verus! {

/// A pipeline to start for a branch head that changed: the pipeline's index in
/// its project, the branch's index in the pipeline's branch list, and the head's
/// index in the list of remote heads.
#[derive(Clone, Copy, Debug, PartialEq, Eq, Structural)]
pub struct Launch {
    pub pipeline_index: usize,
    pub branch_index: usize,
    pub head_index: usize,
}

/// The first cache entry named like `head` records the same commit.
pub open spec fn is_unchanged(cache: Seq<Branch>, head: Branch) -> bool {
    exists|i: int|
        0 <= i < cache.len() && #[trigger] cache[i].name@ == head.name@ && (forall|j: int|
            0 <= j < i ==> #[trigger] cache[j].name@ != head.name@) && cache[i].latest_commit_hash@
            == head.latest_commit_hash@
}

/// The first position of `name` in the pipeline's branch list.
pub open spec fn is_first_branch_at(p: Pipeline, name: Seq<char>, i: int) -> bool {
    &&& 0 <= i < p.branches@.len()
    &&& p.branches@[i]@ == name
    &&& forall|j: int| 0 <= j < i ==> #[trigger] p.branches@[j]@ != name
}

pub open spec fn first_branch_index(p: Pipeline, name: Seq<char>) -> int {
    choose|i: int| is_first_branch_at(p, name, i)
}

/// A pipeline fires for a changed branch when it is automatic, applies to the
/// branch, and has at least one stage.
pub open spec fn fires(p: Pipeline, name: Seq<char>) -> bool {
    &&& p.condition == Condition::Automatic
    &&& string_views(p.branches@).contains(name)
    &&& p.stages@.len() > 0
}

/// Launches, in pipeline order, among the first `n` pipelines, for the head at `h`.
pub open spec fn branch_launches(ps: Seq<Pipeline>, name: Seq<char>, h: int, n: int) -> Seq<Launch>
    decreases n,
{
    if n <= 0 {
        seq![]
    } else {
        let prev = branch_launches(ps, name, h, n - 1);
        if fires(ps[n - 1], name) {
            prev.push(
                Launch {
                    pipeline_index: (n - 1) as usize,
                    branch_index: first_branch_index(ps[n - 1], name) as usize,
                    head_index: h as usize,
                },
            )
        } else {
            prev
        }
    }
}

/// Launches decided by the first `n` remote heads against the project's cache.
pub open spec fn planned(project: Project, heads: Seq<Branch>, n: int) -> Seq<Launch>
    decreases n,
{
    if n <= 0 {
        seq![]
    } else {
        let prev = planned(project, heads, n - 1);
        if is_unchanged(project.branches@, heads[n - 1]) {
            prev
        } else {
            prev + branch_launches(
                project.pipelines@,
                heads[n - 1].name@,
                n - 1,
                project.pipelines@.len() as int,
            )
        }
    }
}

/// Whether `head` is new to the cache: its branch is absent, or the first entry
/// of that name holds another commit.
pub fn head_changed(cache: &Vec<Branch>, head: &Branch) -> (r: bool)
    ensures
        r == !is_unchanged(cache@, *head),
{
    let mut i: usize = 0;
    while i < cache.len()
        invariant
            i <= cache@.len(),
            forall|j: int| 0 <= j < i ==> #[trigger] cache@[j].name@ != head.name@,
        decreases cache@.len() - i,
    {
        if cache[i].name == head.name {
            let same = cache[i].latest_commit_hash == head.latest_commit_hash;
            proof {
                if !same {
                    assert(!is_unchanged(cache@, *head)) by {
                        if is_unchanged(cache@, *head) {
                            let k = choose|k: int|
                                0 <= k < cache@.len() && #[trigger] cache@[k].name@ == head.name@
                                    && (forall|j: int|
                                    0 <= j < k ==> #[trigger] cache@[j].name@ != head.name@)
                                    && cache@[k].latest_commit_hash@
                                    == head.latest_commit_hash@;
                            if k < i {
                            } else if k > i {
                                assert(cache@[i as int].name@ != head.name@);
                            }
                        }
                    }
                } else {
                    assert(cache@[i as int].name@ == head.name@);
                }
            }
            return !same;
        }
        i = i + 1;
    }
    true
}

/// Appends the launches that the head at `h` causes, in pipeline order.
fn push_branch_launches(project: &Project, heads: &Vec<Branch>, h: usize, out: &mut Vec<Launch>)
    requires
        h < heads@.len(),
    ensures
        final(out)@ == old(out)@ + branch_launches(
            project.pipelines@,
            heads@[h as int].name@,
            h as int,
            project.pipelines@.len() as int,
        ),
{
    let ghost name = heads@[h as int].name@;
    let mut k: usize = 0;
    while k < project.pipelines.len()
        invariant
            k <= project.pipelines@.len(),
            h < heads@.len(),
            name == heads@[h as int].name@,
            out@ == old(out)@ + branch_launches(project.pipelines@, name, h as int, k as int),
        decreases project.pipelines@.len() - k,
    {
        let pipeline = &project.pipelines[k];
        if pipeline.condition == Condition::Automatic && pipeline.stages.len() > 0 {
            match pipeline.branch_index(&heads[h].name) {
                Some(b) => {
                    proof {
                        assert(is_first_branch_at(*pipeline, name, b as int));
                        let c = first_branch_index(*pipeline, name);
                        assert(is_first_branch_at(*pipeline, name, c));
                        if c < b {
                            assert(pipeline.branches@[c]@ != name);
                        } else if c > b {
                            assert(pipeline.branches@[b as int]@ != name);
                        }
                    }
                    out.push(Launch { pipeline_index: k, branch_index: b, head_index: h });
                },
                None => {},
            }
        }
        proof {
            assert(out@ == old(out)@ + branch_launches(project.pipelines@, name, h as int, k + 1))
                by {
                let prev = branch_launches(project.pipelines@, name, h as int, k as int);
                if fires(project.pipelines@[k as int], name) {
                    assert((old(out)@ + prev).push(
                        Launch {
                            pipeline_index: k,
                            branch_index: first_branch_index(project.pipelines@[k as int], name)
                                as usize,
                            head_index: h,
                        },
                    ) =~= old(out)@ + branch_launches(
                        project.pipelines@,
                        name,
                        h as int,
                        k + 1,
                    ));
                }
            }
        }
        k = k + 1;
    }
}

/// The launches that a poll returning `heads` causes, before the cache is updated:
/// for each head, in order, that is new to the cache, every firing pipeline of
/// the project, in order.
pub fn plan_launches(project: &Project, heads: &Vec<Branch>) -> (r: Vec<Launch>)
    ensures
        r@ == planned(*project, heads@, heads@.len() as int),
{
    let mut out: Vec<Launch> = Vec::new();
    let mut h: usize = 0;
    while h < heads.len()
        invariant
            h <= heads@.len(),
            out@ == planned(*project, heads@, h as int),
        decreases heads@.len() - h,
    {
        if head_changed(&project.branches, &heads[h]) {
            push_branch_launches(project, heads, h, &mut out);
        } else {
            assert(out@ =~= planned(*project, heads@, h + 1));
        }
        h = h + 1;
    }
    out
}

/// One project's share of a tick. `heads` is what listing the remote heads
/// returned, `None` where that failed. The launches are decided against the cache
/// as it stood, and the cache is then replaced by the heads; after a failure
/// nothing is launched and the project is left as it was.
pub fn poll_project(project: &mut Project, heads: Option<Vec<Branch>>) -> (r: Vec<Launch>)
    ensures
        heads is None ==> r@.len() == 0 && *final(project) == *old(project),
        heads matches Some(h) ==> {
            &&& r@ == planned(*old(project), h@, h@.len() as int)
            &&& final(project).branches == h
            &&& final(project).url == old(project).url
            &&& final(project).pipelines == old(project).pipelines
            &&& final(project).persistent == old(project).persistent
        },
{
    match heads {
        None => Vec::new(),
        Some(h) => {
            let launches = plan_launches(project, &h);
            project.update_branches(h);
            launches
        },
    }
}

proof fn lemma_branch_launches_fire(ps: Seq<Pipeline>, name: Seq<char>, h: int, n: int)
    requires
        n <= ps.len(),
        n <= usize::MAX,
    ensures
        forall|i: int|
            0 <= i < branch_launches(ps, name, h, n).len() ==> {
                let l = #[trigger] branch_launches(ps, name, h, n)[i];
                &&& l.pipeline_index < n
                &&& fires(ps[l.pipeline_index as int], name)
            },
    decreases n,
{
    if n > 0 {
        lemma_branch_launches_fire(ps, name, h, n - 1);
        let prev = branch_launches(ps, name, h, n - 1);
        assert forall|i: int| 0 <= i < branch_launches(ps, name, h, n).len() implies {
            let l = #[trigger] branch_launches(ps, name, h, n)[i];
            &&& l.pipeline_index < n
            &&& fires(ps[l.pipeline_index as int], name)
        } by {
            if i < prev.len() {
                assert(branch_launches(ps, name, h, n)[i] == prev[i]);
            }
        }
    }
}

/// Every launch a poll decides is on behalf of an automatic pipeline of the
/// project that applies to the changed branch and has a stage: a manual
/// pipeline never fires from the updater.
pub proof fn lemma_manual_pipelines_never_fire(project: Project, heads: Seq<Branch>, n: int)
    requires
        n <= heads.len(),
        heads.len() <= usize::MAX,
        project.pipelines@.len() <= usize::MAX,
    ensures
        forall|i: int|
            0 <= i < planned(project, heads, n).len() ==> {
                let l = #[trigger] planned(project, heads, n)[i];
                &&& l.pipeline_index < project.pipelines@.len()
                &&& l.head_index < n
                &&& project.pipelines@[l.pipeline_index as int].condition
                    == Condition::Automatic
                &&& fires(project.pipelines@[l.pipeline_index as int], heads[l.head_index as int].name@)
            },
    decreases n,
{
    if n > 0 {
        lemma_manual_pipelines_never_fire(project, heads, n - 1);
        let ps = project.pipelines@;
        let name = heads[n - 1].name@;
        lemma_branch_launches_fire(ps, name, n - 1, ps.len() as int);
        lemma_branch_launches_head(ps, name, n - 1, ps.len() as int);
        let prev = planned(project, heads, n - 1);
        if !is_unchanged(project.branches@, heads[n - 1]) {
            let extra = branch_launches(ps, name, n - 1, ps.len() as int);
            assert forall|i: int| 0 <= i < planned(project, heads, n).len() implies {
                let l = #[trigger] planned(project, heads, n)[i];
                &&& l.pipeline_index < project.pipelines@.len()
                &&& l.head_index < n
                &&& project.pipelines@[l.pipeline_index as int].condition
                    == Condition::Automatic
                &&& fires(project.pipelines@[l.pipeline_index as int], heads[l.head_index as int].name@)
            } by {
                if i >= prev.len() {
                    assert(planned(project, heads, n)[i] == extra[i - prev.len()]);
                } else {
                    assert(planned(project, heads, n)[i] == prev[i]);
                }
            }
        }
    }
}

proof fn lemma_branch_launches_head(ps: Seq<Pipeline>, name: Seq<char>, h: int, n: int)
    requires
        0 <= h <= usize::MAX,
    ensures
        forall|i: int|
            0 <= i < branch_launches(ps, name, h, n).len() ==> (#[trigger] branch_launches(
                ps,
                name,
                h,
                n,
            )[i]).head_index == h,
    decreases n,
{
    if n > 0 {
        lemma_branch_launches_head(ps, name, h, n - 1);
        let prev = branch_launches(ps, name, h, n - 1);
        assert forall|i: int| 0 <= i < branch_launches(ps, name, h, n).len() implies (
        #[trigger] branch_launches(ps, name, h, n)[i]).head_index == h by {
            if i < prev.len() {
                assert(branch_launches(ps, name, h, n)[i] == prev[i]);
            }
        }
    }
}

/// Polling a repository whose remote heads are exactly the cached ones (branch
/// names being distinct, as remote refs are) launches nothing.
pub proof fn lemma_unchanged_heads_plan_nothing(project: Project, heads: Seq<Branch>, n: int)
    requires
        project.branches@ == heads,
        0 <= n <= heads.len(),
        forall|i: int, j: int|
            0 <= i < j < heads.len() ==> #[trigger] heads[i].name@ != #[trigger] heads[j].name@,
    ensures
        planned(project, heads, n) == Seq::<Launch>::empty(),
    decreases n,
{
    if n > 0 {
        lemma_unchanged_heads_plan_nothing(project, heads, n - 1);
        let cache = project.branches@;
        assert(cache[n - 1].name@ == heads[n - 1].name@);
        assert forall|j: int| 0 <= j < n - 1 implies #[trigger] cache[j].name@ != heads[n
            - 1].name@ by {
            assert(heads[j].name@ != heads[n - 1].name@);
        }
        assert(is_unchanged(cache, heads[n - 1]));
    }
}

/// The short form of a commit hash: its first five characters.
pub fn short_hash(hash: &String) -> (r: String)
    ensures
        hash@.len() >= 5 ==> r@ == hash@.subrange(0, 5),
        hash@.len() < 5 ==> r@ == hash@,
{
    let n = hash.as_str().unicode_len();
    let k: usize = if n < 5 {
        n
    } else {
        5
    };
    let r = String::from_str(hash.as_str().substring_char(0, k));
    proof {
        if n < 5 {
            assert(hash@.subrange(0, n as int) =~= hash@);
        }
    }
    r
}

} // verus!
