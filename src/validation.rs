//! Violations found in a document, and the walk that collects them.
use vstd::prelude::*;
use crate::path::{JsonPath, Segment};
use crate::root::Root;

verus! {

/// What is wrong at a location.
#[derive(Clone, Copy, Debug, PartialEq, Eq, Structural)]
pub enum ErrorKind {
    /// A reference equals or exceeds the length of the collection it addresses.
    IndexOutOfBounds,
}

/// One violation: what is wrong, and where.
pub struct Error {
    pub kind: ErrorKind,
    pub path: JsonPath,
}

/// A violation as Verus reasons about it: its kind and its location.
pub type Finding = (ErrorKind, Seq<Segment>);

impl View for Error {
    type V = Finding;

    open spec fn view(&self) -> Finding {
        (self.kind, self.path@)
    }
}

/// The findings that a sequence of errors stands for, in the same order.
pub open spec fn findings(errors: Seq<Error>) -> Seq<Finding> {
    errors.map_values(|e: Error| e@)
}

/// Appending an error appends its finding.
pub proof fn lemma_findings_push(errors: Seq<Error>, e: Error)
    ensures
        findings(errors.push(e)) == findings(errors).push(e@),
{
    assert(findings(errors.push(e)) =~= findings(errors).push(e@));
}

impl Error {
    /// A reference at `path` that points past the end of its collection.
    pub fn index_out_of_bounds(path: JsonPath) -> (r: Error)
        ensures
            r@ == (ErrorKind::IndexOutOfBounds, path@),
    {
        Error { kind: ErrorKind::IndexOutOfBounds, path }
    }
}

/// A part of a document that can check its references.
pub trait Validate {
    /// The findings of validating `self`, found at `path` in `root`, in the
    /// order in which they are reported.
    spec fn errors(&self, root: &Root, path: Seq<Segment>) -> Seq<Finding>;

    /// Appends to `report` every violation found in `self`, which stands at
    /// `path` in `root`. Nothing stops the walk: all findings are reported.
    fn validate(&self, root: &Root, path: JsonPath, report: &mut Vec<Error>)
        ensures
            findings(final(report)@) == findings(old(report)@) + self.errors(root, path@),
    ;
}

/// The findings of the first `n` elements of `items`, each validated at its
/// position under `path`, in ascending order of position.
pub open spec fn elements_errors<T: Validate>(
    items: Seq<T>,
    root: &Root,
    path: Seq<Segment>,
    n: nat,
) -> Seq<Finding>
    decreases n,
{
    if n == 0 {
        Seq::empty()
    } else {
        elements_errors(items, root, path, (n - 1) as nat) + items[n - 1].errors(
            root,
            path.push(Segment::Index((n - 1) as nat)),
        )
    }
}

/// Where no element has a finding of its own, a sequence has none either.
pub proof fn lemma_elements_without_errors<T: Validate>(
    items: Seq<T>,
    root: &Root,
    path: Seq<Segment>,
    n: nat,
)
    requires
        n <= items.len(),
        forall|i: int, p: Seq<Segment>| 0 <= i < n ==> #[trigger] items[i].errors(root, p) == Seq::<
            Finding,
        >::empty(),
    ensures
        elements_errors(items, root, path, n) == Seq::<Finding>::empty(),
    decreases n,
{
    if n > 0 {
        lemma_elements_without_errors(items, root, path, (n - 1) as nat);
        let last = items[n - 1].errors(root, path.push(Segment::Index((n - 1) as nat)));
        assert(Seq::<Finding>::empty() + last =~= Seq::<Finding>::empty());
    }
}

impl<T: Validate> Validate for Vec<T> {
    open spec fn errors(&self, root: &Root, path: Seq<Segment>) -> Seq<Finding> {
        elements_errors(self@, root, path, self@.len())
    }

    fn validate(&self, root: &Root, path: JsonPath, report: &mut Vec<Error>) {
        let ghost start = findings(report@);
        let mut i: usize = 0;
        while i < self.len()
            invariant
                i <= self@.len(),
                findings(report@) == start + elements_errors(self@, root, path@, i as nat),
            decreases self@.len() - i,
        {
            let ghost before = findings(report@);
            self[i].validate(root, path.index(i), report);
            assert(start + elements_errors(self@, root, path@, (i + 1) as nat) =~= before
                + self@[i as int].errors(root, path@.push(Segment::Index(i as nat))));
            i += 1;
        }
        assert(start == findings(old(report)@));
    }
}

} // verus!
