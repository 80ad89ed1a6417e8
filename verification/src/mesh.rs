//! Discretisation of a mooring line into elements and nodes.
//!
//! A line is an ordered run of segments, segment 0 at the top. Segment `s` is
//! cut into `counts[s]` elements of equal length, so a line with `E` elements
//! in total has `E + 1` nodes, numbered from the top. Step `i` is the element
//! between node `i` and node `i + 1`.

use vstd::prelude::*;

verus! {

/// Number of elements in the first `k` segments.
pub open spec fn elements_before(counts: Seq<nat>, k: int) -> nat
    decreases k,
{
    if k <= 0 {
        0
    } else {
        elements_before(counts, k - 1) + counts[k - 1]
    }
}

/// Number of elements in segment `s` and the segments above it: the
/// cumulative element count of segment `s`.
pub open spec fn elements_through(counts: Seq<nat>, s: int) -> nat {
    elements_before(counts, s + 1)
}

/// Number of elements of the whole line.
pub open spec fn total_elements(counts: Seq<nat>) -> nat {
    elements_before(counts, counts.len() as int)
}

/// Step `i` lies in segment `s`.
pub open spec fn in_segment(counts: Seq<nat>, s: int, i: int) -> bool {
    &&& 0 <= s < counts.len()
    &&& elements_before(counts, s) <= i < elements_before(counts, s + 1)
}

/// The segment in which step `i` lies.
pub open spec fn segment_of(counts: Seq<nat>, i: int) -> int {
    choose|s: int| in_segment(counts, s, i)
}

/// Element counts that describe a line: at least one segment, at least one
/// element in each, and a node count that a `usize` can hold.
pub open spec fn valid_counts(counts: Seq<nat>) -> bool {
    &&& counts.len() >= 1
    &&& forall|s: int| 0 <= s < counts.len() ==> #[trigger] counts[s] >= 1
    &&& total_elements(counts) + 1 <= usize::MAX
}

/// The element counts that a list of configured numbers asks for.
pub open spec fn requested_counts(num_elements: Seq<i32>) -> Seq<nat> {
    Seq::new(num_elements.len(), |s: int| num_elements[s] as nat)
}

/// The cumulative element count never decreases along the line.
pub proof fn lemma_elements_before_monotonic(counts: Seq<nat>, a: int, b: int)
    requires
        a <= b,
    ensures
        elements_before(counts, a) <= elements_before(counts, b),
    decreases b - a,
{
    if a < b {
        lemma_elements_before_monotonic(counts, a, b - 1);
    }
}

/// Where every segment holds an element, the cumulative count grows by at
/// least one per segment.
pub proof fn lemma_elements_before_grows(counts: Seq<nat>, a: int, b: int)
    requires
        0 <= a <= b <= counts.len(),
        forall|s: int| 0 <= s < counts.len() ==> #[trigger] counts[s] >= 1,
    ensures
        elements_before(counts, a) + (b - a) <= elements_before(counts, b),
    decreases b - a,
{
    if a < b {
        lemma_elements_before_grows(counts, a, b - 1);
        assert(counts[b - 1] >= 1);
    }
}

/// No step lies in two segments.
pub proof fn lemma_segment_unique(counts: Seq<nat>, s: int, t: int, i: int)
    requires
        in_segment(counts, s, i),
        in_segment(counts, t, i),
    ensures
        s == t,
{
    if s < t {
        lemma_elements_before_monotonic(counts, s + 1, t);
    } else if t < s {
        lemma_elements_before_monotonic(counts, t + 1, s);
    }
}

/// Every step of the line lies in some segment.
pub proof fn lemma_segment_exists(counts: Seq<nat>, i: int) -> (s: int)
    requires
        0 <= i < total_elements(counts),
    ensures
        in_segment(counts, s, i),
{
    lemma_segment_search(counts, i, counts.len() as int)
}

proof fn lemma_segment_search(counts: Seq<nat>, i: int, k: int) -> (s: int)
    requires
        0 <= k <= counts.len(),
        0 <= i < elements_before(counts, k),
    ensures
        in_segment(counts, s, i),
        s < k,
    decreases k,
{
    if elements_before(counts, k - 1) <= i {
        k - 1
    } else {
        lemma_segment_search(counts, i, k - 1)
    }
}

/// The segment of a step that the line has is the segment in which it lies.
pub proof fn lemma_segment_of(counts: Seq<nat>, i: int)
    requires
        0 <= i < total_elements(counts),
    ensures
        in_segment(counts, segment_of(counts, i), i),
{
    let s = lemma_segment_exists(counts, i);
}

/// A step lies in segment `s` exactly if `s` is the first segment whose
/// cumulative element count exceeds the index of the step.
pub proof fn lemma_segment_is_first_to_exceed(counts: Seq<nat>, s: int, i: int)
    requires
        0 <= i,
        0 <= s < counts.len(),
    ensures
        in_segment(counts, s, i) <==> {
            &&& elements_through(counts, s) > i
            &&& forall|t: int| 0 <= t < s ==> #[trigger] elements_through(counts, t) <= i
        },
{
    if in_segment(counts, s, i) {
        assert forall|t: int| 0 <= t < s implies #[trigger] elements_through(counts, t) <= i by {
            lemma_elements_before_monotonic(counts, t + 1, s);
        }
    }
    if s > 0 {
        assert(elements_through(counts, s - 1) == elements_before(counts, s));
    }
}

/// Segment `s` takes as many steps as it has elements: those that follow the
/// elements of the segments above it.
pub proof fn lemma_segment_takes_its_elements(counts: Seq<nat>, s: int, i: int)
    requires
        0 <= s < counts.len(),
    ensures
        in_segment(counts, s, i) <==> elements_before(counts, s) <= i < elements_before(counts, s)
            + counts[s],
{
}

/// The steps of a line pass through its segments in order, from the top
/// segment down.
pub proof fn lemma_segments_in_order(counts: Seq<nat>, i: int, j: int)
    requires
        0 <= i <= j < total_elements(counts),
    ensures
        0 <= segment_of(counts, i) <= segment_of(counts, j) < counts.len(),
{
    lemma_segment_of(counts, i);
    lemma_segment_of(counts, j);
    let s = segment_of(counts, i);
    let t = segment_of(counts, j);
    if t < s {
        lemma_elements_before_monotonic(counts, t + 1, s);
    }
}

/// A line has more nodes than segments: every segment adds at least one
/// element, and the nodes are one more than the elements.
pub proof fn lemma_nodes_outnumber_segments(counts: Seq<nat>)
    requires
        valid_counts(counts),
    ensures
        1 + total_elements(counts) > counts.len(),
{
    lemma_elements_before_grows(counts, 0, counts.len() as int);
}

/// Why a list of element counts does not describe a line.
#[derive(Clone, Copy, Debug, PartialEq, Eq, Structural)]
pub enum MeshError {
    /// The line has no segment.
    NoSegments,
    /// The segment at `index` has fewer than one element.
    EmptySegment { index: usize },
    /// The line would have more nodes than can be addressed.
    TooManyNodes,
}

/// The discretisation of one line: how many elements each of its segments is
/// cut into, from the top segment down.
pub struct LineMesh {
    counts: Vec<usize>,
    elements: usize,
}

impl View for LineMesh {
    type V = Seq<nat>;

    closed spec fn view(&self) -> Seq<nat> {
        Seq::new(self.counts@.len(), |s: int| self.counts@[s] as nat)
    }
}

impl LineMesh {
    /// The counts describe a line, and the cached total agrees with them.
    /// This holds of every mesh.
    #[verifier::type_invariant]
    pub closed spec fn wf(&self) -> bool {
        &&& valid_counts(self@)
        &&& self.elements == total_elements(self@)
    }

    /// What holds of every mesh implies that its counts are valid.
    pub proof fn lemma_wf_valid(&self)
        requires
            self.wf(),
        ensures
            valid_counts(self@),
    {
    }

    /// Builds the mesh of a line from the element count of each segment.
    ///
    /// Fails on an empty list, on the first segment with fewer than one
    /// element, and on a line whose nodes could not be indexed.
    pub fn new(num_elements: &Vec<i32>) -> (r: Result<LineMesh, MeshError>)
        ensures
            match r {
                Ok(mesh) => valid_counts(mesh@) && mesh@ == requested_counts(num_elements@) && forall|s: int|
                    0 <= s < num_elements@.len() ==> #[trigger] num_elements@[s] >= 1,
                Err(MeshError::NoSegments) => num_elements@.len() == 0,
                Err(MeshError::EmptySegment { index }) => {
                    &&& index < num_elements@.len()
                    &&& num_elements@[index as int] < 1
                    &&& forall|s: int| 0 <= s < index ==> #[trigger] num_elements@[s] >= 1
                },
                Err(MeshError::TooManyNodes) => {
                    &&& num_elements@.len() >= 1
                    &&& forall|s: int|
                        0 <= s < num_elements@.len() ==> #[trigger] num_elements@[s] >= 1
                    &&& total_elements(requested_counts(num_elements@)) + 1 > usize::MAX
                },
            },
    {
        let len: usize = num_elements.len();
        if len == 0 {
            return Err(MeshError::NoSegments);
        }
        let ghost wanted = requested_counts(num_elements@);
        let mut counts: Vec<usize> = Vec::with_capacity(len);
        let mut elements: usize = 0;
        let mut fits: bool = true;
        let mut s: usize = 0;
        while s < len
            invariant
                len == num_elements@.len(),
                wanted == requested_counts(num_elements@),
                s <= len,
                counts@.len() == s,
                forall|t: int| 0 <= t < s ==> #[trigger] num_elements@[t] >= 1,
                forall|t: int| 0 <= t < s ==> #[trigger] counts@[t] == num_elements@[t],
                fits ==> elements == elements_before(wanted, s as int) && elements < usize::MAX,
                !fits ==> elements_before(wanted, s as int) + 1 > usize::MAX,
            decreases len - s,
        {
            let n: i32 = num_elements[s];
            if n < 1 {
                return Err(MeshError::EmptySegment { index: s });
            }
            let count: usize = n as usize;
            counts.push(count);
            assert(wanted[s as int] == count);
            if fits {
                if count < usize::MAX - elements {
                    elements = elements + count;
                } else {
                    fits = false;
                }
            }
            s = s + 1;
        }
        if !fits {
            return Err(MeshError::TooManyNodes);
        }
        proof {
            let held = Seq::new(counts@.len(), |t: int| counts@[t] as nat);
            assert(held =~= wanted);
            assert forall|t: int| 0 <= t < wanted.len() implies #[trigger] wanted[t] >= 1 by {
                assert(num_elements@[t] >= 1);
            }
        }
        Ok(LineMesh { counts, elements })
    }

    /// Number of segments of the line.
    pub fn segment_count(&self) -> (n: usize)
        ensures
            n == self@.len(),
    {
        self.counts.len()
    }

    /// Number of elements that segment `s` is cut into. `None` where the line
    /// has no segment `s`.
    pub fn elements_in(&self, s: usize) -> (r: Option<usize>)
        ensures
            match r {
                Some(n) => s < self@.len() && n == self@[s as int],
                None => s >= self@.len(),
            },
    {
        if s < self.counts.len() {
            Some(self.counts[s])
        } else {
            None
        }
    }

    /// Index of the node at which segment `s` begins, which is the number of
    /// elements above it. For `s` equal to the number of segments this is the
    /// bottom node. `None` for a larger `s`.
    pub fn first_node_of(&self, s: usize) -> (r: Option<usize>)
        ensures
            match r {
                Some(node) => s <= self@.len() && node == elements_before(self@, s as int),
                None => s > self@.len(),
            },
    {
        proof {
            use_type_invariant(self);
        }
        if s > self.counts.len() {
            return None;
        }
        let mut node: usize = 0;
        let mut t: usize = 0;
        while t < s
            invariant
                self.wf(),
                s <= self@.len(),
                self@.len() == self.counts@.len(),
                t <= s,
                node == elements_before(self@, t as int),
            decreases s - t,
        {
            proof {
                lemma_elements_before_monotonic(self@, t + 1, self@.len() as int);
            }
            node = node + self.counts[t];
            t = t + 1;
        }
        Some(node)
    }

    /// Number of elements of the line.
    pub fn element_count(&self) -> (n: usize)
        ensures
            n == total_elements(self@),
    {
        proof {
            use_type_invariant(self);
        }
        self.elements
    }

    /// Number of nodes of the line: one more than it has elements.
    pub fn node_count(&self) -> (n: usize)
        ensures
            n == 1 + total_elements(self@),
    {
        proof {
            use_type_invariant(self);
        }
        self.elements + 1
    }

    /// The segment that supplies the element length and the line type of step
    /// `i`: the first segment whose cumulative element count exceeds `i`.
    /// `None` where the line has no step `i`.
    pub fn segment_of_step(&self, i: usize) -> (r: Option<usize>)
        ensures
            match r {
                Some(s) => in_segment(self@, s as int, i as int) && s == segment_of(
                    self@,
                    i as int,
                ),
                None => i >= total_elements(self@),
            },
    {
        proof {
            use_type_invariant(self);
        }
        if i < self.elements {
            Some(self.locate(i))
        } else {
            None
        }
    }

    /// The segment of a step that the line is known to have.
    pub(crate) fn locate(&self, i: usize) -> (s: usize)
        requires
            i < total_elements(self@),
        ensures
            in_segment(self@, s as int, i as int),
            s == segment_of(self@, i as int),
    {
        proof {
            use_type_invariant(self);
        }
        let len: usize = self.counts.len();
        let mut s: usize = 0;
        let mut end: usize = self.counts[0];
        assert(elements_before(self@, 1) == elements_before(self@, 0) + self@[0]);
        while end <= i
            invariant
                self.wf(),
                len == self@.len(),
                len == self.counts@.len(),
                i < total_elements(self@),
                s < len,
                end == elements_before(self@, s + 1),
                elements_before(self@, s as int) <= i,
            decreases len - s,
        {
            proof {
                lemma_elements_before_monotonic(self@, s + 2, len as int);
            }
            s = s + 1;
            end = end + self.counts[s];
        }
        proof {
            assert(in_segment(self@, s as int, i as int));
            lemma_segment_unique(self@, s as int, segment_of(self@, i as int), i as int);
        }
        s
    }
}

} // verus!
