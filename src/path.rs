//! Locations inside a document, for diagnostics.
use vstd::prelude::*;
use vstd::string::StrSliceExecFns;
use vstd::string::StringExecFns;

verus! {

/// One step of a location, as Verus reasons about it.
pub enum Segment {
    Field(Seq<char>),
    Index(nat),
}

/// One step of a location: a named field or a position in an array.
pub enum PathSegment {
    Field(String),
    Index(usize),
}

impl View for PathSegment {
    type V = Segment;

    open spec fn view(&self) -> Segment {
        match self {
            PathSegment::Field(name) => Segment::Field(name@),
            PathSegment::Index(i) => Segment::Index(*i as nat),
        }
    }
}

/// The decimal digits of `n`, most significant first.
pub open spec fn decimal(n: nat) -> Seq<char>
    decreases n,
{
    let d = seq!['0', '1', '2', '3', '4', '5', '6', '7', '8', '9'][(n % 10) as int];
    if n < 10 {
        seq![d]
    } else {
        decimal(n / 10).push(d)
    }
}

/// The text of a location: fields joined by dots, positions in brackets,
/// as in `animations[2].channels[0].sampler`.
pub open spec fn render(p: Seq<Segment>) -> Seq<char>
    decreases p.len(),
{
    if p.len() == 0 {
        Seq::empty()
    } else {
        let prefix = render(p.drop_last());
        match p.last() {
            Segment::Field(name) => if prefix.len() == 0 {
                name
            } else {
                prefix + seq!['.'] + name
            },
            Segment::Index(i) => prefix + seq!['['] + decimal(i) + seq![']'],
        }
    }
}

/// An immutable location inside a document; `field` and `index` return
/// extended copies and leave the path they extend as it was.
pub struct JsonPath {
    segments: Vec<PathSegment>,
}

impl View for JsonPath {
    type V = Seq<Segment>;

    closed spec fn view(&self) -> Seq<Segment> {
        self.segments@.map_values(|s: PathSegment| s@)
    }
}

fn copy_segment(s: &PathSegment) -> (r: PathSegment)
    ensures
        r@ == s@,
{
    match s {
        PathSegment::Field(name) => PathSegment::Field(name.clone()),
        PathSegment::Index(i) => PathSegment::Index(*i),
    }
}

/// Appends the decimal digits of `n` to `out`.
fn append_decimal(out: &mut String, n: usize)
    ensures
        final(out)@ == old(out)@ + decimal(n as nat),
    decreases n,
{
    if n >= 10 {
        append_decimal(out, n / 10);
    }
    let digits = "0123456789";
    proof {
        reveal_strlit("0123456789");
    }
    let d = n % 10;
    let digit = digits.substring_char(d, d + 1);
    out.append(digit);
    assert(digit@ =~= seq![decimal(n as nat).last()]);
    assert(final(out)@ =~= old(out)@ + decimal(n as nat));
}

impl JsonPath {
    /// The location of the document root: no segment at all.
    pub fn root() -> (r: JsonPath)
        ensures
            r@ == Seq::<Segment>::empty(),
    {
        let r = JsonPath { segments: Vec::new() };
        assert(r@ =~= Seq::<Segment>::empty());
        r
    }

    fn extended(&self, last: PathSegment) -> (r: JsonPath)
        ensures
            r@ == self@.push(last@),
    {
        let mut segments: Vec<PathSegment> = Vec::new();
        let mut i: usize = 0;
        while i < self.segments.len()
            invariant
                i <= self.segments@.len(),
                segments@.map_values(|s: PathSegment| s@) =~= self@.take(i as int),
            decreases self.segments@.len() - i,
        {
            let ghost prev = segments@;
            segments.push(copy_segment(&self.segments[i]));
            assert(segments@ =~= prev.push(segments@.last()));
            assert(segments@.map_values(|s: PathSegment| s@) =~= prev.map_values(
                |s: PathSegment| s@,
            ).push(self@[i as int]));
            i += 1;
        }
        let ghost prev = segments@;
        segments.push(last);
        assert(segments@.map_values(|s: PathSegment| s@) =~= prev.map_values(
            |s: PathSegment| s@,
        ).push(last@));
        assert(self@.take(self@.len() as int) =~= self@);
        let r = JsonPath { segments };
        assert(r@ =~= self@.push(last@));
        r
    }

    /// This location followed by the field `name`.
    pub fn field(&self, name: &str) -> (r: JsonPath)
        ensures
            r@ == self@.push(Segment::Field(name@)),
    {
        self.extended(PathSegment::Field(String::from_str(name)))
    }

    /// This location followed by position `i` of an array.
    pub fn index(&self, i: usize) -> (r: JsonPath)
        ensures
            r@ == self@.push(Segment::Index(i as nat)),
    {
        self.extended(PathSegment::Index(i))
    }

    /// The segments of this location, from the root down.
    pub fn segments(&self) -> (r: &Vec<PathSegment>)
        ensures
            r@.map_values(|s: PathSegment| s@) == self@,
    {
        &self.segments
    }

    /// The text of this location, as `render` gives it.
    pub fn as_string(&self) -> (r: String)
        ensures
            r@ == render(self@),
    {
        let mut out = String::new();
        let mut i: usize = 0;
        while i < self.segments.len()
            invariant
                i <= self.segments@.len(),
                out@ == render(self@.take(i as int)),
            decreases self.segments@.len() - i,
        {
            let ghost before = out@;
            proof {
                reveal_strlit(".");
                reveal_strlit("[");
                reveal_strlit("]");
            }
            assert(self@.take(i + 1).drop_last() =~= self@.take(i as int));
            assert(self@.take(i + 1).last() == self.segments@[i as int]@);
            match &self.segments[i] {
                PathSegment::Field(name) => {
                    if !out.as_str().is_empty() {
                        out.append(".");
                        out.append(name.as_str());
                        assert(out@ =~= before + seq!['.'] + name@);
                    } else {
                        out.append(name.as_str());
                        assert(out@ =~= name@);
                    }
                },
                PathSegment::Index(k) => {
                    out.append("[");
                    append_decimal(&mut out, *k);
                    out.append("]");
                    assert(out@ =~= before + seq!['['] + decimal(*k as nat) + seq![']']);
                },
            }
            assert(out@ == render(self@.take(i + 1)));
            i += 1;
        }
        assert(self@.take(self.segments@.len() as int) =~= self@);
        out
    }
}

} // verus!
