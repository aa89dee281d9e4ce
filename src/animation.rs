//! Keyframe animations: channels that apply samplers to node properties.
use vstd::prelude::*;
use vstd::string::StringExecFns;
use crate::index::{Accessor, Index, Node};
use crate::path::{JsonPath, Segment};
use crate::root::{Extras, Root};
use crate::validation::{
    elements_errors, findings, lemma_elements_without_errors, lemma_findings_push, Error,
    ErrorKind, Finding, Validate,
};

verus! {

/// A keyframe animation.
///
/// Different channels of the same animation are meant to have different
/// targets; validation does not check this.
#[derive(Clone, Debug)]
pub struct Animation {
    /// Extension specific data.
    pub extensions: AnimationExtensions,
    /// Optional application specific data.
    pub extras: Extras,
    /// The channels, each of which applies one of this animation's samplers
    /// to a node's property.
    pub channels: Vec<Channel>,
    /// Optional user-defined name for this object.
    pub name: Option<String>,
    /// The samplers, each of which combines input and output accessors with
    /// an interpolation algorithm into a keyframe graph (but not its target).
    pub samplers: Vec<Sampler>,
}

/// Extension specific data for `Animation`.
#[derive(Clone, Copy, Debug, Default)]
pub struct AnimationExtensions {}

/// Applies an animation's sampler to a node's property.
#[derive(Clone, Debug)]
pub struct Channel {
    /// The sampler of the owning animation that computes the target's value;
    /// it counts in that animation's samplers, not in the document's.
    pub sampler: Index<Sampler>,
    /// The node and property to animate.
    pub target: Target,
    /// Extension specific data.
    pub extensions: ChannelExtensions,
    /// Optional application specific data.
    pub extras: Extras,
}

/// Extension specific data for `Channel`.
#[derive(Clone, Copy, Debug, Default)]
pub struct ChannelExtensions {}

/// The node and property that an animation channel animates.
#[derive(Clone, Debug)]
pub struct Target {
    /// Extension specific data.
    pub extensions: TargetExtensions,
    /// Optional application specific data.
    pub extras: Extras,
    /// The node to animate.
    pub node: Index<Node>,
    /// The name of the node's property to modify (`translation`, `rotation`,
    /// `scale`), or `weights` for the morph targets it instantiates.
    pub path: String,
}

/// Extension specific data for `Target`.
#[derive(Clone, Copy, Debug, Default)]
pub struct TargetExtensions {}

/// A keyframe graph, without its target.
#[derive(Clone, Debug)]
pub struct Sampler {
    /// Extension specific data.
    pub extensions: SamplerExtensions,
    /// Optional application specific data.
    pub extras: Extras,
    /// The accessor of the keyframe inputs, e.g. times.
    pub input: Index<Accessor>,
    /// The interpolation algorithm.
    pub interpolation: String,
    /// The accessor of the keyframe outputs.
    pub output: Index<Accessor>,
}

/// Extension specific data for `Sampler`.
#[derive(Clone, Copy, Debug, Default)]
pub struct SamplerExtensions {}

/// The interpolation a sampler has when its source names none: `LINEAR`.
pub fn sampler_interpolation_default() -> (r: String)
    ensures
        r@ == seq!['L', 'I', 'N', 'E', 'A', 'R'],
{
    proof {
        reveal_strlit("LINEAR");
    }
    String::from_str("LINEAR")
}

/// The location of the sampler reference of channel `i` of the animation at
/// `path`: `channels[i].sampler` under it.
pub open spec fn sampler_ref_path(path: Seq<Segment>, i: nat) -> Seq<Segment> {
    path.push(Segment::Field("channels"@)).push(Segment::Index(i)).push(
        Segment::Field("sampler"@),
    )
}

/// Whether channel `i` refers to a sampler past the end of `n_samplers`.
pub open spec fn sampler_out_of_bounds(channels: Seq<Channel>, n_samplers: nat, i: int) -> bool {
    channels[i].sampler@ >= n_samplers
}

/// The findings of the sampler references of channels `lo` up to `hi`
/// (excluded): one at each reference past the end, in channel order.
pub open spec fn sampler_ref_errors(
    channels: Seq<Channel>,
    n_samplers: nat,
    path: Seq<Segment>,
    lo: nat,
    hi: nat,
) -> Seq<Finding>
    decreases hi,
{
    if hi <= lo {
        Seq::empty()
    } else {
        let prev = sampler_ref_errors(channels, n_samplers, path, lo, (hi - 1) as nat);
        if sampler_out_of_bounds(channels, n_samplers, hi - 1) {
            prev.push(
                (ErrorKind::IndexOutOfBounds, sampler_ref_path(path, (hi - 1) as nat)),
            )
        } else {
            prev
        }
    }
}

impl Validate for Animation {
    /// The findings of the samplers, then of the channels, then one for each
    /// channel whose sampler reference is past the end of the samplers.
    open spec fn errors(&self, root: &Root, path: Seq<Segment>) -> Seq<Finding> {
        self.samplers.errors(root, path.push(Segment::Field("samplers"@))) + self.channels.errors(
            root,
            path.push(Segment::Field("channels"@)),
        ) + sampler_ref_errors(self.channels@, self.samplers@.len(), path, 0, self.channels@.len())
    }

    fn validate(&self, root: &Root, path: JsonPath, report: &mut Vec<Error>) {
        self.samplers.validate(root, path.field("samplers"), report);
        self.channels.validate(root, path.field("channels"), report);
        let ghost start = findings(report@);
        let n_samplers = self.samplers.len();
        let mut index: usize = 0;
        while index < self.channels.len()
            invariant
                index <= self.channels@.len(),
                n_samplers == self.samplers@.len(),
                findings(report@) == start + sampler_ref_errors(
                    self.channels@,
                    n_samplers as nat,
                    path@,
                    0,
                    index as nat,
                ),
            decreases self.channels@.len() - index,
        {
            let ghost before = report@;
            if self.channels[index].sampler.value() as usize >= n_samplers {
                let at = path.field("channels").index(index).field("sampler");
                report.push(Error::index_out_of_bounds(at));
                proof {
                    lemma_findings_push(before, report@.last());
                    assert(report@ == before.push(report@.last()));
                }
            }
            index += 1;
        }
    }
}

proof fn lemma_sampler_ref_errors_split(
    channels: Seq<Channel>,
    n_samplers: nat,
    path: Seq<Segment>,
    lo: nat,
    mid: nat,
    hi: nat,
)
    requires
        lo <= mid <= hi,
    ensures
        sampler_ref_errors(channels, n_samplers, path, lo, hi) == sampler_ref_errors(
            channels,
            n_samplers,
            path,
            lo,
            mid,
        ) + sampler_ref_errors(channels, n_samplers, path, mid, hi),
    decreases hi,
{
    let left = sampler_ref_errors(channels, n_samplers, path, lo, mid);
    if hi == mid {
        assert(left + Seq::<Finding>::empty() =~= left);
    } else {
        lemma_sampler_ref_errors_split(channels, n_samplers, path, lo, mid, (hi - 1) as nat);
        let right = sampler_ref_errors(channels, n_samplers, path, mid, (hi - 1) as nat);
        let f = (ErrorKind::IndexOutOfBounds, sampler_ref_path(path, (hi - 1) as nat));
        assert((left + right).push(f) =~= left + right.push(f));
    }
}

proof fn lemma_sampler_ref_errors_located(
    channels: Seq<Channel>,
    n_samplers: nat,
    path: Seq<Segment>,
    lo: nat,
    hi: nat,
)
    ensures
        forall|k: int|
            0 <= k < sampler_ref_errors(channels, n_samplers, path, lo, hi).len() ==> exists|j: nat|
                lo <= j < hi && sampler_out_of_bounds(channels, n_samplers, j as int)
                    && #[trigger] sampler_ref_errors(channels, n_samplers, path, lo, hi)[k] == (
                    ErrorKind::IndexOutOfBounds,
                    sampler_ref_path(path, j),
                ),
    decreases hi,
{
    if hi > lo {
        let prev_hi = (hi - 1) as nat;
        lemma_sampler_ref_errors_located(channels, n_samplers, path, lo, prev_hi);
        let prev = sampler_ref_errors(channels, n_samplers, path, lo, prev_hi);
        let errs = sampler_ref_errors(channels, n_samplers, path, lo, hi);
        assert forall|k: int| 0 <= k < errs.len() implies exists|j: nat|
            lo <= j < hi && sampler_out_of_bounds(channels, n_samplers, j as int) && #[trigger] errs[k]
                == (ErrorKind::IndexOutOfBounds, sampler_ref_path(path, j)) by {
            if k < prev.len() {
                assert(errs[k] == prev[k]);
                let j = choose|j: nat|
                    lo <= j < prev_hi && sampler_out_of_bounds(channels, n_samplers, j as int)
                        && prev[k] == (ErrorKind::IndexOutOfBounds, sampler_ref_path(path, j));
                assert(lo <= j < hi);
            } else {
                assert(errs[k] == (ErrorKind::IndexOutOfBounds, sampler_ref_path(path, prev_hi)));
            }
        }
    }
}

proof fn lemma_sampler_ref_errors_none(
    channels: Seq<Channel>,
    n_samplers: nat,
    path: Seq<Segment>,
    lo: nat,
    hi: nat,
)
    requires
        forall|j: int| lo <= j < hi ==> !sampler_out_of_bounds(channels, n_samplers, j),
    ensures
        sampler_ref_errors(channels, n_samplers, path, lo, hi) == Seq::<Finding>::empty(),
    decreases hi,
{
    if hi > lo {
        lemma_sampler_ref_errors_none(channels, n_samplers, path, lo, (hi - 1) as nat);
    }
}

proof fn lemma_sampler_ref_path_injective(path: Seq<Segment>, i: nat, j: nat)
    requires
        sampler_ref_path(path, i) == sampler_ref_path(path, j),
    ensures
        i == j,
{
    assert(sampler_ref_path(path, i)[path.len() + 1int] == Segment::Index(i));
    assert(sampler_ref_path(path, j)[path.len() + 1int] == Segment::Index(j));
}

proof fn lemma_animation_errors(a: Animation, root: &Root, path: Seq<Segment>)
    ensures
        a.errors(root, path) == sampler_ref_errors(
            a.channels@,
            a.samplers@.len(),
            path,
            0,
            a.channels@.len(),
        ),
{
    lemma_elements_without_errors(
        a.samplers@,
        root,
        path.push(Segment::Field("samplers"@)),
        a.samplers@.len(),
    );
    lemma_elements_without_errors(
        a.channels@,
        root,
        path.push(Segment::Field("channels"@)),
        a.channels@.len(),
    );
    let e = Seq::<Finding>::empty();
    let s = sampler_ref_errors(a.channels@, a.samplers@.len(), path, 0, a.channels@.len());
    assert(e + e + s =~= s);
}

/// An animation without channels and without samplers has no findings.
pub proof fn empty_animation_has_no_errors(a: Animation, root: &Root, path: Seq<Segment>)
    requires
        a.channels@.len() == 0,
        a.samplers@.len() == 0,
    ensures
        a.errors(root, path) == Seq::<Finding>::empty(),
{
    lemma_animation_errors(a, root, path);
}

/// A channel whose sampler reference is past the end of the animation's
/// samplers is reported exactly once: one finding, `IndexOutOfBounds` at
/// `channels[i].sampler`, and no other finding at that location.
pub proof fn out_of_bounds_sampler_reported_once(
    a: Animation,
    root: &Root,
    path: Seq<Segment>,
    i: nat,
)
    requires
        i < a.channels@.len(),
        a.channels@[i as int].sampler@ >= a.samplers@.len(),
    ensures
        exists|k: int|
            0 <= k < a.errors(root, path).len() && a.errors(root, path)[k] == (
                ErrorKind::IndexOutOfBounds,
                sampler_ref_path(path, i),
            ) && forall|m: int|
                0 <= m < a.errors(root, path).len() && m != k ==> (#[trigger] a.errors(
                    root,
                    path,
                )[m]).1 != sampler_ref_path(path, i),
{
    let cs = a.channels@;
    let n = a.samplers@.len();
    let len = cs.len();
    lemma_animation_errors(a, root, path);
    lemma_sampler_ref_errors_split(cs, n, path, 0, i, len);
    lemma_sampler_ref_errors_split(cs, n, path, i, i + 1, len);
    let before = sampler_ref_errors(cs, n, path, 0, i);
    let here = sampler_ref_errors(cs, n, path, i, i + 1);
    let after = sampler_ref_errors(cs, n, path, i + 1, len);
    let f = (ErrorKind::IndexOutOfBounds, sampler_ref_path(path, i));
    assert(sampler_ref_errors(cs, n, path, i, i) =~= Seq::<Finding>::empty());
    assert(here =~= seq![f]);
    let errs = a.errors(root, path);
    assert(errs == before + here + after);
    lemma_sampler_ref_errors_located(cs, n, path, 0, i);
    lemma_sampler_ref_errors_located(cs, n, path, i + 1, len);
    let k = before.len() as int;
    assert(errs[k] == f);
    assert forall|m: int| 0 <= m < errs.len() && m != k implies (#[trigger] errs[m]).1
        != sampler_ref_path(path, i) by {
        if m < k {
            assert(errs[m] == before[m]);
            let j = choose|j: nat|
                0 <= j < i && sampler_out_of_bounds(cs, n, j as int) && before[m] == (
                    ErrorKind::IndexOutOfBounds,
                    sampler_ref_path(path, j),
                );
            if sampler_ref_path(path, j) == sampler_ref_path(path, i) {
                lemma_sampler_ref_path_injective(path, i, j);
            }
        } else {
            let m2 = m - k - 1;
            assert(errs[m] == after[m2]);
            let j = choose|j: nat|
                i + 1 <= j < len && sampler_out_of_bounds(cs, n, j as int) && after[m2] == (
                    ErrorKind::IndexOutOfBounds,
                    sampler_ref_path(path, j),
                );
            if sampler_ref_path(path, j) == sampler_ref_path(path, i) {
                lemma_sampler_ref_path_injective(path, i, j);
            }
        }
    }
}

/// Where every channel refers to one of the animation's samplers, nothing
/// is reported.
pub proof fn in_bounds_samplers_not_reported(a: Animation, root: &Root, path: Seq<Segment>)
    requires
        forall|i: int| 0 <= i < a.channels@.len() ==> #[trigger] a.channels@[i].sampler@ < a.samplers@.len(),
    ensures
        a.errors(root, path) == Seq::<Finding>::empty(),
{
    lemma_animation_errors(a, root, path);
    lemma_sampler_ref_errors_none(a.channels@, a.samplers@.len(), path, 0, a.channels@.len());
}

/// Findings come in channel order: of two channels `i < j` whose sampler
/// references are past the end, the finding of `i` comes first.
pub proof fn sampler_errors_in_channel_order(
    a: Animation,
    root: &Root,
    path: Seq<Segment>,
    i: nat,
    j: nat,
)
    requires
        i < j < a.channels@.len(),
        a.channels@[i as int].sampler@ >= a.samplers@.len(),
        a.channels@[j as int].sampler@ >= a.samplers@.len(),
    ensures
        exists|ki: int, kj: int|
            0 <= ki < kj < a.errors(root, path).len() && a.errors(root, path)[ki] == (
                ErrorKind::IndexOutOfBounds,
                sampler_ref_path(path, i),
            ) && a.errors(root, path)[kj] == (
                ErrorKind::IndexOutOfBounds,
                sampler_ref_path(path, j),
            ),
{
    let cs = a.channels@;
    let n = a.samplers@.len();
    let len = cs.len();
    lemma_animation_errors(a, root, path);
    lemma_sampler_ref_errors_split(cs, n, path, 0, j, len);
    lemma_sampler_ref_errors_split(cs, n, path, 0, i + 1, j);
    lemma_sampler_ref_errors_split(cs, n, path, j, j + 1, len);
    assert(sampler_ref_errors(cs, n, path, j, j) =~= Seq::<Finding>::empty());
    let first = sampler_ref_errors(cs, n, path, 0, i + 1);
    let middle = sampler_ref_errors(cs, n, path, i + 1, j);
    let at_j = sampler_ref_errors(cs, n, path, j, j + 1);
    let rest = sampler_ref_errors(cs, n, path, j + 1, len);
    let errs = a.errors(root, path);
    assert(errs =~= first + middle + at_j + rest);
    let ki = first.len() - 1int;
    let kj = (first.len() + middle.len()) as int;
    assert(errs[ki] == first[ki]);
    assert(errs[kj] == at_j[0]);
}

impl Validate for Channel {
    /// None: the one reference a channel holds to a sibling collection, its
    /// sampler, is checked by the owning animation, which sees the samplers.
    open spec fn errors(&self, root: &Root, path: Seq<Segment>) -> Seq<Finding> {
        Seq::empty()
    }

    fn validate(&self, root: &Root, path: JsonPath, report: &mut Vec<Error>) {
    }
}

impl Validate for Target {
    /// None: the node reference counts in the document's nodes, which only a
    /// validator of the whole document sees.
    open spec fn errors(&self, root: &Root, path: Seq<Segment>) -> Seq<Finding> {
        Seq::empty()
    }

    fn validate(&self, root: &Root, path: JsonPath, report: &mut Vec<Error>) {
    }
}

impl Validate for Sampler {
    /// None: the accessor references count in the document's accessors,
    /// which only a validator of the whole document sees.
    open spec fn errors(&self, root: &Root, path: Seq<Segment>) -> Seq<Finding> {
        Seq::empty()
    }

    fn validate(&self, root: &Root, path: JsonPath, report: &mut Vec<Error>) {
    }
}

} // verus!
