//! The document root.
use vstd::prelude::*;
use crate::animation::Animation;
use crate::path::{JsonPath, Segment};
use crate::validation::{findings, Error, Finding, Validate};

verus! {

/// Optional application specific data, kept as the raw text of its value.
pub type Extras = Option<String>;

/// The top-level container of a parsed document.
pub struct Root {
    /// The keyframe animations.
    pub animations: Vec<Animation>,
}

impl Validate for Root {
    /// The findings of the animations, each at `animations[i]` under `path`.
    open spec fn errors(&self, root: &Root, path: Seq<Segment>) -> Seq<Finding> {
        self.animations.errors(root, path.push(Segment::Field("animations"@)))
    }

    fn validate(&self, root: &Root, path: JsonPath, report: &mut Vec<Error>) {
        self.animations.validate(root, path.field("animations"), report);
    }
}

impl Root {
    /// Every violation in the document, walked from the root, depth first and
    /// in document order.
    pub fn validate_document(&self) -> (r: Vec<Error>)
        ensures
            findings(r@) == self.errors(self, Seq::empty()),
    {
        let mut report: Vec<Error> = Vec::new();
        let path = JsonPath::root();
        self.validate(self, path, &mut report);
        assert(findings(Seq::<Error>::empty()) =~= Seq::<Finding>::empty());
        assert(Seq::<Finding>::empty() + self.errors(self, Seq::empty()) =~= self.errors(
            self,
            Seq::empty(),
        ));
        report
    }
}

} // verus!
