//! Paths to settings within a configuration.

use vstd::prelude::*;

verus! {

/// A segment of a path, as plain values.
pub ghost enum Segment {
    Index(int),
    Key(Seq<char>),
    Unknown,
    Variant(Seq<char>),
}

/// A segment of a path to a setting.
#[derive(Debug, PartialEq, Eq)]
pub enum PathSegment {
    /// An item of a list.
    Index(usize),
    /// A setting or an entry of a map.
    Key(String),
    /// A segment that could not be determined.
    Unknown,
    /// A variant of an enum.
    Variant(String),
}

impl View for PathSegment {
    type V = Segment;

    open spec fn view(&self) -> Segment {
        match self {
            PathSegment::Index(i) => Segment::Index(*i as int),
            PathSegment::Key(k) => Segment::Key(k@),
            PathSegment::Unknown => Segment::Unknown,
            PathSegment::Variant(v) => Segment::Variant(v@),
        }
    }
}

impl Clone for PathSegment {
    fn clone(&self) -> (r: Self)
        ensures
            r@ == self@,
    {
        match self {
            PathSegment::Index(i) => PathSegment::Index(*i),
            PathSegment::Key(k) => PathSegment::Key(k.clone()),
            PathSegment::Unknown => PathSegment::Unknown,
            PathSegment::Variant(v) => PathSegment::Variant(v.clone()),
        }
    }
}

/// A path to a setting: the segments from the root, in order.
#[derive(Debug, PartialEq, Eq)]
pub struct Path {
    segments: Vec<PathSegment>,
}

impl View for Path {
    type V = Seq<Segment>;

    closed spec fn view(&self) -> Seq<Segment> {
        self.segments@.map_values(|s: PathSegment| s@)
    }
}

impl Default for Path {
    fn default() -> (r: Self)
        ensures
            r@ == Seq::<Segment>::empty(),
    {
        Path::new(Vec::new())
    }
}

impl Clone for Path {
    fn clone(&self) -> (r: Self)
        ensures
            r@ == self@,
    {
        let mut segments: Vec<PathSegment> = Vec::new();
        let mut i: usize = 0;
        while i < self.segments.len()
            invariant
                i <= self.segments@.len(),
                segments@.len() == i,
                forall|j: int| 0 <= j < i ==> #[trigger] segments@[j]@ == self.segments@[j]@,
            decreases self.segments@.len() - i,
        {
            segments.push(self.segments[i].clone());
            i = i + 1;
        }
        let r = Path { segments };
        assert(r@ =~= self@);
        r
    }
}

impl Path {
    /// Create a path of the given segments.
    pub fn new(segments: Vec<PathSegment>) -> (r: Self)
        ensures
            r@ == segments@.map_values(|s: PathSegment| s@),
    {
        Path { segments }
    }

    /// The segments of the path.
    pub fn segments(&self) -> (r: &Vec<PathSegment>)
        ensures
            r@.map_values(|s: PathSegment| s@) == self@,
    {
        &self.segments
    }

    fn join(&self, segment: PathSegment) -> (r: Self)
        ensures
            r@ == self@.push(segment@),
    {
        let mut r = self.clone();
        let ghost before = r.segments@;
        r.segments.push(segment);
        assert(r.segments@.map_values(|s: PathSegment| s@) =~= before.map_values(
            |s: PathSegment| s@,
        ).push(segment@));
        r
    }

    /// The path extended with a setting or map key.
    pub fn join_key(&self, key: &str) -> (r: Self)
        ensures
            r@ == self@.push(Segment::Key(key@)),
    {
        self.join(PathSegment::Key(key.to_owned()))
    }

    /// The path extended with a list index.
    pub fn join_index(&self, index: usize) -> (r: Self)
        ensures
            r@ == self@.push(Segment::Index(index as int)),
    {
        self.join(PathSegment::Index(index))
    }

    /// The path extended with an enum variant.
    pub fn join_variant(&self, variant: &str) -> (r: Self)
        ensures
            r@ == self@.push(Segment::Variant(variant@)),
    {
        self.join(PathSegment::Variant(variant.to_owned()))
    }

    /// The path followed by all segments of `other`.
    pub fn join_path(&self, other: &Path) -> (r: Self)
        ensures
            r@ == self@ + other@,
    {
        let mut r = self.clone();
        let mut i: usize = 0;
        while i < other.segments.len()
            invariant
                i <= other.segments@.len(),
                r@ == self@ + other@.take(i as int),
            decreases other.segments@.len() - i,
        {
            r = r.join(other.segments[i].clone());
            proof {
                assert(other@.take(i + 1) =~= other@.take(i as int).push(other@[i as int]));
            }
            i = i + 1;
        }
        assert(other@.take(i as int) =~= other@);
        r
    }
}

/// Joining paths is associative: joining `b` onto `a`, then `c` onto that, gives the
/// segments that joining onto `a` the join of `b` and `c` gives.
pub proof fn lemma_join_path_associative(a: Path, b: Path, c: Path)
    ensures
        (a@ + b@) + c@ == a@ + (b@ + c@),
{
    assert((a@ + b@) + c@ =~= a@ + (b@ + c@));
}

} // verus!
