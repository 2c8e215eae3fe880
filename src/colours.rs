use vstd::prelude::*;

verus! {

/// What a stretch of rendered chain text is coloured as.
#[derive(Clone, Copy, Debug, PartialEq, Eq, Structural)]
pub enum ColourType {
    Mnemonic,
    Operand,
    /// A capture of the include pattern with this position.
    Regex(usize),
}

/// Half-open stretch `[start, end)` of text with an optional colour.
#[derive(Clone, Copy, Debug, PartialEq, Eq, Structural)]
pub struct ColourRange {
    pub start: usize,
    pub end: usize,
    pub colour: Option<ColourType>,
}

impl ColourRange {
    pub fn is_empty(&self) -> (r: bool)
        ensures
            r == (self.end <= self.start),
    {
        if self.end > self.start {
            false
        } else {
            true
        }
    }
}

/// A list of coloured stretches; where stretches overlap the earlier wins.
#[derive(Debug)]
pub struct Colours {
    pub ranges: Vec<ColourRange>,
}

/// Colour of position `idx`: that of the first stretch containing it.
pub open spec fn colour_at(ranges: Seq<ColourRange>, idx: int) -> Option<ColourType>
    decreases ranges.len(),
{
    if ranges.len() == 0 {
        None
    } else if ranges[0].start <= idx < ranges[0].end {
        ranges[0].colour
    } else {
        colour_at(ranges.drop_first(), idx)
    }
}

/// Colour of position `idx` when `front` is laid over `back`.
pub open spec fn layered_colour(front: Seq<ColourRange>, back: Seq<ColourRange>, idx: int) -> Option<ColourType> {
    match colour_at(front, idx) {
        Some(c) => Some(c),
        None => colour_at(back, idx),
    }
}

/// `rs` cuts `[0, n)` into consecutive non-empty stretches, each of one
/// layered colour, with neighbours of different colours.
pub open spec fn run_encoding(rs: Seq<ColourRange>, front: Seq<ColourRange>, back: Seq<ColourRange>, n: int) -> bool {
    &&& rs.len() > 0
    &&& rs[0].start == 0
    &&& rs[rs.len() - 1].end == n
    &&& forall|j: int| 0 <= j < rs.len() ==> (#[trigger] rs[j]).start < rs[j].end
    &&& forall|j: int| 0 <= j < rs.len() - 1 ==> (#[trigger] rs[j]).end == rs[j + 1].start && rs[j].colour != rs[j + 1].colour
    &&& forall|j: int, x: int| 0 <= j < rs.len() && (#[trigger] rs[j]).start <= x < rs[j].end
        ==> #[trigger] layered_colour(front, back, x) == rs[j].colour
}

/// End of the last stretch, or zero when there is none.
pub open spec fn ranges_end(rs: Seq<ColourRange>) -> usize {
    if rs.len() == 0 { 0 } else { rs[rs.len() - 1].end }
}

impl Colours {
    pub fn new(ranges: Vec<ColourRange>) -> (r: Colours)
        ensures
            r.ranges == ranges,
    {
        Colours { ranges }
    }

    /// End of the last stretch, or zero when there is none.
    pub fn max(&self) -> (r: usize)
        ensures
            r == ranges_end(self.ranges@),
    {
        if self.ranges.len() == 0 {
            0
        } else {
            self.ranges[self.ranges.len() - 1].end
        }
    }

    pub fn colour(&self, idx: usize) -> (r: Option<ColourType>)
        ensures
            r == colour_at(self.ranges@, idx as int),
    {
        let mut i: usize = 0;
        assert(self.ranges@.subrange(0, self.ranges@.len() as int) =~= self.ranges@);
        while i < self.ranges.len()
            invariant
                i <= self.ranges@.len(),
                colour_at(self.ranges@, idx as int) == colour_at(self.ranges@.subrange(i as int, self.ranges@.len() as int), idx as int),
            decreases self.ranges@.len() - i,
        {
            let r = self.ranges[i];
            let ghost rest = self.ranges@.subrange(i as int, self.ranges@.len() as int);
            assert(rest[0] == r);
            if r.start <= idx && idx < r.end {
                return r.colour;
            }
            assert(rest.drop_first() =~= self.ranges@.subrange(i + 1, self.ranges@.len() as int));
            i = i + 1;
        }
        None
    }

    /// Lays these stretches over `other`'s and returns the result as
    /// maximal stretches of one colour covering `[0, max)`.
    pub fn background(&self, other: Colours) -> (r: Colours)
        ensures
            ({
                let a = ranges_end(self.ranges@);
                let b = ranges_end(other.ranges@);
                let limit = if a >= b { a } else { b };
                &&& limit == 0 ==> r.ranges@.len() == 0
                &&& limit > 0 ==> run_encoding(r.ranges@, self.ranges@, other.ranges@, limit as int)
            }),
    {
        let a = self.max();
        let b = other.max();
        let limit = if a >= b { a } else { b };
        let mut ranges: Vec<ColourRange> = Vec::new();
        let mut current = ColourRange { start: 0, end: 0, colour: None };
        let mut i: usize = 0;
        while i < limit
            invariant
                i <= limit,
                i == 0 ==> ranges@.len() == 0 && current == (ColourRange { start: 0, end: 0, colour: None }),
                i > 0 ==> run_encoding(ranges@.push(current), self.ranges@, other.ranges@, i as int),
            decreases limit - i,
        {
            let colour_type = match self.colour(i) {
                Some(c) => Some(c),
                None => other.colour(i),
            };
            let ghost before = ranges@.push(current);
            if current.colour == colour_type {
                current.end = i + 1;
                proof {
                    let now = ranges@.push(current);
                    if i > 0 {
                        assert forall|j: int, x: int| 0 <= j < now.len() && (#[trigger] now[j]).start <= x < now[j].end
                            implies #[trigger] layered_colour(self.ranges@, other.ranges@, x) == now[j].colour by {
                            if j < now.len() - 1 {
                                assert(now[j] == before[j]);
                            } else if x < i {
                                assert(before[j].start <= x < before[j].end);
                            }
                        }
                        assert forall|j: int| 0 <= j < now.len() - 1 implies (#[trigger] now[j]).end == now[j + 1].start && now[j].colour != now[j + 1].colour by {
                            assert(now[j] == before[j]);
                            assert(now[j + 1].start == before[j + 1].start && now[j + 1].colour == before[j + 1].colour);
                        }
                        assert forall|j: int| 0 <= j < now.len() implies (#[trigger] now[j]).start < now[j].end by {
                            if j < now.len() - 1 {
                                assert(now[j] == before[j]);
                            }
                        }
                    }
                }
            } else {
                if !current.is_empty() {
                    ranges.push(current);
                }
                current = ColourRange { start: i, end: i + 1, colour: colour_type };
                proof {
                    let now = ranges@.push(current);
                    if i > 0 {
                        assert(ranges@ == before);
                        assert forall|j: int, x: int| 0 <= j < now.len() && (#[trigger] now[j]).start <= x < now[j].end
                            implies #[trigger] layered_colour(self.ranges@, other.ranges@, x) == now[j].colour by {
                            if j < now.len() - 1 {
                                assert(now[j] == before[j]);
                            }
                        }
                        assert forall|j: int| 0 <= j < now.len() - 1 implies (#[trigger] now[j]).end == now[j + 1].start && now[j].colour != now[j + 1].colour by {
                            assert(now[j] == before[j]);
                            if j + 1 < now.len() - 1 {
                                assert(now[j + 1] == before[j + 1]);
                            }
                        }
                        assert forall|j: int| 0 <= j < now.len() implies (#[trigger] now[j]).start < now[j].end by {
                            if j < now.len() - 1 {
                                assert(now[j] == before[j]);
                            }
                        }
                    } else {
                        assert(now.len() == 1);
                        assert forall|j: int, x: int| 0 <= j < now.len() && (#[trigger] now[j]).start <= x < now[j].end
                            implies #[trigger] layered_colour(self.ranges@, other.ranges@, x) == now[j].colour by {
                            assert(x == 0);
                        }
                    }
                }
            }
            i = i + 1;
        }
        if !current.is_empty() {
            ranges.push(current);
        }
        Colours { ranges }
    }
}

} // verus!
