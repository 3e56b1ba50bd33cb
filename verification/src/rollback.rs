//! Which deployment a rollback restores.

use vstd::prelude::*;

use crate::deployments::SHORT_HASH;
use crate::model::{Deployment, DeploymentStatus, meta_get};
use crate::search::{
    first_match, lemma_first_match_found, lemma_first_match_none, lemma_first_match_sat,
    lemma_first_match_some,
};
use crate::text::{
    chars_of, decimal, nonblank, nonblank_chars, opt_seq, first_line, first_line_chars, push_chars, push_decimal, push_str,
    same_text, starts_with, starts_with_chars, string_of, take_chars, take_prefix, trim,
    trim_chars,
};

verus! {

/// The deployment to restore, or the candidates to ask about.
pub enum Target {
    /// The deployment at this position of the list.
    Chosen(usize),
    /// Several earlier successful deployments qualify: their positions, and
    /// for each a `"{short hash}  {first line of the message}"` label.
    Ask { candidates: Vec<usize>, items: Vec<String> },
}

/// Why no deployment can be restored.
pub enum TargetError {
    /// Nothing among the `count` deployments has the requested id or a
    /// commit hash that starts with it.
    NoMatch { count: usize, query: String },
    /// None of the `count` deployments after the current one succeeded.
    NoEarlierSuccess { count: usize },
}

/// [`Target`] as plain values.
pub enum TargetView {
    Chosen(int),
    Ask { candidates: Seq<int>, items: Seq<Seq<char>> },
}

/// [`TargetError`] as plain values.
pub enum TargetErrorView {
    NoMatch { count: int, query: Seq<char> },
    NoEarlierSuccess { count: int },
}

impl View for Target {
    type V = TargetView;

    open spec fn view(&self) -> TargetView {
        match self {
            Target::Chosen(k) => TargetView::Chosen(*k as int),
            Target::Ask { candidates, items } => TargetView::Ask {
                candidates: candidates@.map_values(|k: usize| k as int),
                items: items@.map_values(|s: String| s@),
            },
        }
    }
}

impl View for TargetError {
    type V = TargetErrorView;

    open spec fn view(&self) -> TargetErrorView {
        match self {
            TargetError::NoMatch { count, query } => TargetErrorView::NoMatch {
                count: *count as int,
                query: query@,
            },
            TargetError::NoEarlierSuccess { count } => TargetErrorView::NoEarlierSuccess {
                count: *count as int,
            },
        }
    }
}

/// The predicate "has id `q`".
pub open spec fn id_is(q: Seq<char>) -> spec_fn(Deployment) -> bool {
    |d: Deployment| d.id@ == q
}

/// The predicate "was built from a commit whose hash starts with `q`".
pub open spec fn hash_starts(q: Seq<char>) -> spec_fn(Deployment) -> bool {
    |d: Deployment|
        match meta_get(d.meta_seq(), "commitHash"@) {
            Some(h) => starts_with(h, q),
            None => false,
        }
}

/// Positions from `k` on whose deployment succeeded, in order.
pub open spec fn successes_from(ds: Seq<Deployment>, k: int) -> Seq<int>
    decreases ds.len() - k,
{
    if k < 0 || k >= ds.len() {
        Seq::empty()
    } else if ds[k].status == DeploymentStatus::Success {
        seq![k] + successes_from(ds, k + 1)
    } else {
        successes_from(ds, k + 1)
    }
}

/// The label of a candidate: its short commit hash (a dash without one),
/// two spaces, and the trimmed first line of its commit message.
pub open spec fn item_text(d: Deployment) -> Seq<char> {
    let sha = match meta_get(d.meta_seq(), "commitHash"@) {
        Some(h) => take_chars(h, SHORT_HASH as nat),
        None => "—"@,
    };
    let msg = match meta_get(d.meta_seq(), "commitMessage"@) {
        Some(m) => match first_line(m) {
            Some(l) => l,
            None => "(no commit message)"@,
        },
        None => "(no commit message)"@,
    };
    sha + "  "@ + trim(msg)
}

/// Which deployment to restore. The list is newest first, so position 0 is
/// the running deployment. With a non-blank `to`: the first deployment with
/// that id, else the first whose commit hash starts with it, else an error.
/// Without: the successful deployments after position 0; none is an error,
/// one is the choice, several are offered.
pub open spec fn choose_target_spec(ds: Seq<Deployment>, to: Option<Seq<char>>) -> Result<
    TargetView,
    TargetErrorView,
> {
    match nonblank(to) {
        Some(q) => match first_match(ds, id_is(q)) {
            Some(k) => Ok(TargetView::Chosen(k)),
            None => match first_match(ds, hash_starts(q)) {
                Some(k) => Ok(TargetView::Chosen(k)),
                None => Err(TargetErrorView::NoMatch { count: ds.len() as int, query: q }),
            },
        },
        None => {
            let c = successes_from(ds, 1);
            if c.len() == 0 {
                Err(TargetErrorView::NoEarlierSuccess { count: ds.len() as int })
            } else if c.len() == 1 {
                Ok(TargetView::Chosen(c[0]))
            } else {
                Ok(
                    TargetView::Ask {
                        candidates: c,
                        items: c.map_values(|k: int| item_text(ds[k])),
                    },
                )
            }
        },
    }
}

/// Whether the deployment's commit hash starts with `q`.
fn hash_starts_exec(d: &Deployment, q: &[char]) -> (b: bool)
    ensures
        b == hash_starts(q@)(*d),
{
    match d.commit_hash() {
        Some(h) => {
            let hc = chars_of(h);
            starts_with_chars(hc.as_slice(), q)
        },
        None => false,
    }
}

/// The label of a candidate (see [`item_text`]).
pub fn item_label(d: &Deployment) -> (r: String)
    ensures
        r@ == item_text(*d),
{
    let mut v: Vec<char> = Vec::new();
    match d.commit_hash() {
        Some(h) => {
            let hc = chars_of(h);
            let short = take_prefix(hc.as_slice(), SHORT_HASH);
            push_chars(&mut v, short.as_slice());
        },
        None => {
            push_str(&mut v, "—");
        },
    }
    push_str(&mut v, "  ");
    let msg: Vec<char> = match d.commit_message() {
        Some(m) => {
            let mc = chars_of(m);
            match first_line_chars(mc.as_slice()) {
                Some(l) => l,
                None => chars_of("(no commit message)"),
            }
        },
        None => chars_of("(no commit message)"),
    };
    let t = trim_chars(msg.as_slice());
    push_chars(&mut v, t.as_slice());
    string_of(v.as_slice())
}

/// Positions after the first whose deployment succeeded.
fn success_positions(ds: &[Deployment]) -> (r: Vec<usize>)
    ensures
        r@.map_values(|k: usize| k as int) == successes_from(ds@, 1),
{
    let mut r: Vec<usize> = Vec::new();
    let mut k: usize = 1;
    if ds.len() == 0 {
        assert(r@.map_values(|x: usize| x as int) =~= successes_from(ds@, 1));
        return r;
    }
    while k < ds.len()
        invariant
            1 <= k <= ds.len(),
            successes_from(ds@, 1) == r@.map_values(|x: usize| x as int) + successes_from(
                ds@,
                k as int,
            ),
        decreases ds.len() - k,
    {
        let ghost before = r@;
        if ds[k].status == DeploymentStatus::Success {
            r.push(k);
            assert(r@.map_values(|x: usize| x as int) =~= before.map_values(|x: usize| x as int)
                + seq![k as int]);
        }
        k = k + 1;
    }
    assert(r@.map_values(|x: usize| x as int) + successes_from(ds@, k as int) =~= r@.map_values(
        |x: usize| x as int,
    ));
    r
}

/// Chooses the deployment a rollback restores (see [`choose_target_spec`]).
#[verifier::loop_isolation(false)]
pub fn choose_target(deployments: &[Deployment], to: Option<&str>) -> (r: Result<
    Target,
    TargetError,
>)
    ensures
        r matches Ok(t) ==> choose_target_spec(deployments@, opt_seq(to)) == Ok::<
            TargetView,
            TargetErrorView,
        >(t@),
        r matches Err(e) ==> choose_target_spec(deployments@, opt_seq(to)) == Err::<
            TargetView,
            TargetErrorView,
        >(e@),
{
    let query = nonblank_chars(to);
    match query {
        Some(q) => {
            let ghost pid = id_is(q@);
            let mut k: usize = 0;
            while k < deployments.len()
                invariant
                    k <= deployments.len(),
                    forall|j: int| 0 <= j < k ==> !pid(#[trigger] deployments@[j]),
                decreases deployments.len() - k,
            {
                let qs = string_of(q.as_slice());
                if same_text(deployments[k].id.as_str(), qs.as_str()) {
                    proof {
                        lemma_first_match_found(deployments@, pid, k as int);
                    }
                    return Ok(Target::Chosen(k));
                }
                k = k + 1;
            }
            proof {
                lemma_first_match_none(deployments@, pid);
            }
            let ghost ph = hash_starts(q@);
            let mut k: usize = 0;
            while k < deployments.len()
                invariant
                    k <= deployments.len(),
                    forall|j: int| 0 <= j < k ==> !ph(#[trigger] deployments@[j]),
                decreases deployments.len() - k,
            {
                if hash_starts_exec(&deployments[k], q.as_slice()) {
                    proof {
                        lemma_first_match_found(deployments@, ph, k as int);
                    }
                    return Ok(Target::Chosen(k));
                }
                k = k + 1;
            }
            proof {
                lemma_first_match_none(deployments@, ph);
            }
            Err(TargetError::NoMatch { count: deployments.len(), query: string_of(q.as_slice()) })
        },
        None => {
            let candidates = success_positions(deployments);
            let ghost c = successes_from(deployments@, 1);
            assert(candidates@.len() == c.len());
            if candidates.len() == 0 {
                return Err(TargetError::NoEarlierSuccess { count: deployments.len() });
            }
            if candidates.len() == 1 {
                assert(c[0] == candidates@[0] as int);
                return Ok(Target::Chosen(candidates[0]));
            }
            proof {
                lemma_successes_in_range(deployments@, 1);
            }
            let mut items: Vec<String> = Vec::new();
            let mut i: usize = 0;
            while i < candidates.len()
                invariant
                    i <= candidates.len(),
                    items@.len() == i,
                    forall|j: int|
                        0 <= j < i ==> #[trigger] items@[j]@ == item_text(
                            deployments@[candidates@[j] as int],
                        ),
                decreases candidates.len() - i,
            {
                assert(c[i as int] == candidates@[i as int] as int);
                let label = item_label(&deployments[candidates[i]]);
                items.push(label);
                i = i + 1;
            }
            let t = Target::Ask { candidates, items };
            assert(t@ matches TargetView::Ask { candidates: cs, items: its } && cs =~= c && its
                =~= c.map_values(|k: int| item_text(deployments@[k])));
            Ok(t)
        },
    }
}

/// Every position `successes_from` lists is in range, at or after `k`.
pub proof fn lemma_successes_in_range(ds: Seq<Deployment>, k: int)
    ensures
        forall|j: int|
            0 <= j < successes_from(ds, k).len() ==> k <= #[trigger] successes_from(ds, k)[j] < ds.len()
                && ds[successes_from(ds, k)[j]].status == DeploymentStatus::Success,
    decreases ds.len() - k,
{
    if k >= 0 && k < ds.len() {
        lemma_successes_in_range(ds, k + 1);
    }
}

/// Without an explicit choice, a rollback never restores the running
/// deployment (position 0) and only restores a successful one; when it asks,
/// every candidate is such a deployment and there are at least two.
pub proof fn default_target_law(ds: Seq<Deployment>)
    ensures
        choose_target_spec(ds, None) matches Ok(TargetView::Chosen(k)) ==> 1 <= k < ds.len()
            && ds[k].status == DeploymentStatus::Success,
        choose_target_spec(ds, None) matches Ok(TargetView::Ask { candidates, items }) ==> {
            &&& candidates.len() >= 2
            &&& items.len() == candidates.len()
            &&& forall|j: int|
                0 <= j < candidates.len() ==> 1 <= #[trigger] candidates[j] < ds.len()
                    && ds[candidates[j]].status == DeploymentStatus::Success
        },
        choose_target_spec(ds, None) is Err <==> successes_from(ds, 1).len() == 0,
{
    lemma_successes_in_range(ds, 1);
}

/// `successes_from` lists, in increasing order, every successful position
/// from `k` on.
pub proof fn lemma_successes_exact(ds: Seq<Deployment>, k: int)
    requires
        0 <= k,
    ensures
        forall|a: int, b: int|
            0 <= a < b < successes_from(ds, k).len() ==> #[trigger] successes_from(ds, k)[a]
                < #[trigger] successes_from(ds, k)[b],
        forall|j: int|
            k <= j < ds.len() && (#[trigger] ds[j]).status == DeploymentStatus::Success ==> exists|
                x: int,
            |
                0 <= x < successes_from(ds, k).len() && #[trigger] successes_from(ds, k)[x] == j,
    decreases ds.len() - k,
{
    if k < ds.len() {
        lemma_successes_exact(ds, k + 1);
        lemma_successes_in_range(ds, k + 1);
        let rest = successes_from(ds, k + 1);
        let c = successes_from(ds, k);
        if ds[k].status == DeploymentStatus::Success {
            assert(c == seq![k] + rest);
            assert forall|a: int, b: int| 0 <= a < b < c.len() implies #[trigger] c[a]
                < #[trigger] c[b] by {
                assert(c[b] == rest[b - 1]);
                if a > 0 {
                    assert(c[a] == rest[a - 1]);
                }
            }
            assert forall|j: int|
                k <= j < ds.len() && (#[trigger] ds[j]).status
                    == DeploymentStatus::Success implies exists|x: int|
                0 <= x < c.len() && #[trigger] c[x] == j by {
                if j == k {
                    assert(c[0] == k);
                } else {
                    let x = choose|x: int| 0 <= x < rest.len() && #[trigger] rest[x] == j;
                    assert(c[x + 1] == j);
                }
            }
        }
    }
}

/// Without an explicit choice, the candidates are exactly the successful
/// deployments after the running one (position 0), in list order: when there
/// is none the rollback fails, a single one is restored, and several are all
/// offered, each with its label.
pub proof fn default_choice_law(ds: Seq<Deployment>)
    ensures
        (forall|j: int| 1 <= j < ds.len() ==> (#[trigger] ds[j]).status != DeploymentStatus::Success)
            <==> choose_target_spec(ds, None) == Err::<TargetView, TargetErrorView>(
            TargetErrorView::NoEarlierSuccess { count: ds.len() as int },
        ),
        choose_target_spec(ds, None) matches Ok(TargetView::Chosen(k)) ==> 1 <= k < ds.len()
            && ds[k].status == DeploymentStatus::Success && forall|j: int|
            1 <= j < ds.len() && j != k ==> (#[trigger] ds[j]).status != DeploymentStatus::Success,
        choose_target_spec(ds, None) matches Ok(TargetView::Ask { candidates, items }) ==> {
            &&& candidates.len() >= 2
            &&& items.len() == candidates.len()
            &&& forall|a: int, b: int|
                0 <= a < b < candidates.len() ==> #[trigger] candidates[a] < #[trigger] candidates[b]
            &&& forall|x: int|
                0 <= x < candidates.len() ==> 1 <= #[trigger] candidates[x] < ds.len()
                    && ds[candidates[x]].status == DeploymentStatus::Success
                    && items[x] == item_text(ds[candidates[x]])
            &&& forall|j: int|
                1 <= j < ds.len() && (#[trigger] ds[j]).status == DeploymentStatus::Success
                    ==> exists|x: int| 0 <= x < candidates.len() && #[trigger] candidates[x] == j
        },
{
    let c = successes_from(ds, 1);
    lemma_successes_in_range(ds, 1);
    lemma_successes_exact(ds, 1);
    if c.len() > 0 {
        assert(ds[c[0]].status == DeploymentStatus::Success);
    }
    if c.len() == 1 {
        assert forall|j: int|
            1 <= j < ds.len() && j != c[0] implies (#[trigger] ds[j]).status
            != DeploymentStatus::Success by {
            if ds[j].status == DeploymentStatus::Success {
                let x = choose|x: int| 0 <= x < c.len() && #[trigger] c[x] == j;
                assert(x == 0);
            }
        }
    }
    if c.len() == 0 {
        assert forall|j: int| 1 <= j < ds.len() implies (#[trigger] ds[j]).status
            != DeploymentStatus::Success by {
            if ds[j].status == DeploymentStatus::Success {
                let x = choose|x: int| 0 <= x < c.len() && #[trigger] c[x] == j;
            }
        }
    }
}

/// An explicit choice that is some deployment's id picks the first
/// deployment with that id, whatever the commit hashes say.
pub proof fn explicit_id_law(ds: Seq<Deployment>, to: Seq<char>, k: int)
    requires
        0 <= k < ds.len(),
        trim(to).len() > 0,
        ds[k].id@ == trim(to),
        forall|j: int| 0 <= j < k ==> ds[j].id@ != trim(to),
    ensures
        choose_target_spec(ds, Some(to)) == Ok::<TargetView, TargetErrorView>(
            TargetView::Chosen(k),
        ),
{
    lemma_first_match_found(ds, id_is(trim(to)), k);
}

/// The deployment's full commit hash begins with `q` (written out, not
/// through any predicate the choice itself uses).
pub open spec fn full_hash_begins(d: Deployment, q: Seq<char>) -> bool {
    match meta_get(d.meta_seq(), "commitHash"@) {
        Some(h) => q.len() <= h.len() && h.take(q.len() as int) == q,
        None => false,
    }
}

/// With an explicit choice that is no deployment's id, the first deployment
/// whose whole commit hash begins with the trimmed choice is restored: a
/// short prefix and the complete hash both select it.
pub proof fn explicit_hash_law(ds: Seq<Deployment>, to: Seq<char>, k: int)
    requires
        0 <= k < ds.len(),
        trim(to).len() > 0,
        forall|j: int| 0 <= j < ds.len() ==> (#[trigger] ds[j]).id@ != trim(to),
        full_hash_begins(ds[k], trim(to)),
        forall|j: int| 0 <= j < k ==> !full_hash_begins(#[trigger] ds[j], trim(to)),
    ensures
        choose_target_spec(ds, Some(to)) == Ok::<TargetView, TargetErrorView>(
            TargetView::Chosen(k),
        ),
{
    let q = trim(to);
    assert forall|j: int| 0 <= j < ds.len() implies !id_is(q)(#[trigger] ds[j]) by {}
    lemma_first_match_none(ds, id_is(q));
    assert(hash_starts(q)(ds[k]));
    assert forall|j: int| 0 <= j < k implies !hash_starts(q)(#[trigger] ds[j]) by {
        assert(!full_hash_begins(ds[j], q));
    }
    lemma_first_match_found(ds, hash_starts(q), k);
}

/// A deployment's complete commit hash, given as the explicit choice,
/// restores that deployment when no id is that text and no earlier
/// deployment's hash begins with it.
pub proof fn whole_hash_law(ds: Seq<Deployment>, k: int, h: Seq<char>)
    requires
        0 <= k < ds.len(),
        trim(h) == h,
        h.len() > 0,
        meta_get(ds[k].meta_seq(), "commitHash"@) == Some(h),
        forall|j: int| 0 <= j < ds.len() ==> (#[trigger] ds[j]).id@ != h,
        forall|j: int| 0 <= j < k ==> !full_hash_begins(#[trigger] ds[j], h),
    ensures
        choose_target_spec(ds, Some(h)) == Ok::<TargetView, TargetErrorView>(
            TargetView::Chosen(k),
        ),
{
    assert(h.take(h.len() as int) =~= h);
    explicit_hash_law(ds, h, k);
}

/// An explicit choice fails exactly when no deployment has it as id and no
/// deployment's commit hash begins with it.
pub proof fn explicit_no_match_law(ds: Seq<Deployment>, to: Seq<char>)
    requires
        trim(to).len() > 0,
    ensures
        choose_target_spec(ds, Some(to)) is Err <==> (forall|j: int|
            0 <= j < ds.len() ==> (#[trigger] ds[j]).id@ != trim(to) && !full_hash_begins(
                ds[j],
                trim(to),
            )),
{
    let q = trim(to);
    lemma_first_match_sat(ds, id_is(q));
    lemma_first_match_sat(ds, hash_starts(q));
    if forall|j: int| 0 <= j < ds.len() ==> (#[trigger] ds[j]).id@ != q && !full_hash_begins(ds[j], q) {
        assert forall|j: int| 0 <= j < ds.len() implies !id_is(q)(#[trigger] ds[j]) by {}
        assert forall|j: int| 0 <= j < ds.len() implies !hash_starts(q)(#[trigger] ds[j]) by {
            assert(!full_hash_begins(ds[j], q));
        }
        lemma_first_match_none(ds, id_is(q));
        lemma_first_match_none(ds, hash_starts(q));
    } else {
        let j = choose|j: int| 0 <= j < ds.len() && !((#[trigger] ds[j]).id@ != q && !full_hash_begins(ds[j], q));
        if ds[j].id@ == q {
            lemma_first_match_some(ds, id_is(q), j);
        } else {
            assert(hash_starts(q)(ds[j]));
            lemma_first_match_some(ds, hash_starts(q), j);
        }
    }
}

/// What an error says.
pub open spec fn target_error_text(e: TargetErrorView) -> Seq<char> {
    match e {
        TargetErrorView::NoMatch { count, query } => "no deployment in the last "@ + decimal(
            count as nat,
        ) + " matched '"@ + query + "'"@,
        TargetErrorView::NoEarlierSuccess { count } => "no earlier SUCCESS deployment found in the last "@
            + decimal(count as nat) + " — pass --to <id|sha> to pick one explicitly"@,
    }
}

impl TargetError {
    /// The message shown for the error.
    pub fn message(&self) -> (r: String)
        ensures
            r@ == target_error_text(self@),
    {
        let mut v: Vec<char> = Vec::new();
        match self {
            TargetError::NoMatch { count, query } => {
                push_str(&mut v, "no deployment in the last ");
                push_decimal(&mut v, *count);
                push_str(&mut v, " matched '");
                push_str(&mut v, query.as_str());
                push_str(&mut v, "'");
            },
            TargetError::NoEarlierSuccess { count } => {
                push_str(&mut v, "no earlier SUCCESS deployment found in the last ");
                push_decimal(&mut v, *count);
                push_str(&mut v, " — pass --to <id|sha> to pick one explicitly");
            },
        }
        string_of(v.as_slice())
    }
}

} // verus!
