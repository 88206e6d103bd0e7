use vstd::prelude::*;

use crate::segment::{seg_views, Segment, SegmentView};

verus! {

/// The segments of all modules, one module after another.
pub open spec fn flatten(parts: Seq<Seq<SegmentView>>) -> Seq<SegmentView>
    decreases parts.len(),
{
    if parts.len() == 0 {
        seq![]
    } else {
        flatten(parts.drop_last()) + parts.last()
    }
}

/// The views of each module's segments.
pub open spec fn module_views(outs: Seq<Vec<Segment>>) -> Seq<Seq<SegmentView>> {
    outs.map_values(|v: Vec<Segment>| seg_views(v@))
}

/// A prompt: the segments that each module produced, in the order the
/// modules were added.
pub struct Prompt {
    outputs: Vec<Vec<Segment>>,
}

impl View for Prompt {
    type V = Seq<Seq<SegmentView>>;

    closed spec fn view(&self) -> Seq<Seq<SegmentView>> {
        module_views(self.outputs@)
    }
}

impl Prompt {
    /// A prompt without modules.
    pub fn new() -> (r: Prompt)
        ensures
            r@ == Seq::<Seq<SegmentView>>::empty(),
    {
        let r = Prompt { outputs: Vec::new() };
        assert(r@ =~= Seq::<Seq<SegmentView>>::empty());
        r
    }

    /// Adds the segments of one more module after those of the earlier ones.
    pub fn add_module_output(&mut self, produced: Vec<Segment>)
        ensures
            final(self)@ == old(self)@.push(seg_views(produced@)),
    {
        self.outputs.push(produced);
        assert(self@ =~= old(self)@.push(seg_views(produced@)));
    }

    /// Every module's segments, in module order and each module's own order.
    pub fn segments(&self) -> (r: Vec<Segment>)
        ensures
            seg_views(r@) == flatten(self@),
    {
        let mut r: Vec<Segment> = Vec::new();
        let n = self.outputs.len();
        let mut i: usize = 0;
        assert(self@.take(0) =~= Seq::<Seq<SegmentView>>::empty());
        while i < n
            invariant
                n == self.outputs@.len(),
                i <= n,
                seg_views(r@) == flatten(self@.take(i as int)),
            decreases n - i,
        {
            let part = &self.outputs[i];
            let m = part.len();
            let mut j: usize = 0;
            assert(seg_views(part@).take(0) =~= Seq::<SegmentView>::empty());
            assert(seg_views(r@) =~= flatten(self@.take(i as int)) + seg_views(part@).take(0));
            while j < m
                invariant
                    n == self.outputs@.len(),
                    i < n,
                    part == &self.outputs@[i as int],
                    m == part@.len(),
                    j <= m,
                    seg_views(r@) == flatten(self@.take(i as int)) + seg_views(part@).take(
                        j as int,
                    ),
                decreases m - j,
            {
                let s = part[j].duplicate();
                let ghost prev = seg_views(r@);
                r.push(s);
                assert(seg_views(r@) =~= prev.push(seg_views(part@)[j as int]));
                assert(seg_views(part@).take(j + 1) =~= seg_views(part@).take(j as int).push(
                    seg_views(part@)[j as int],
                ));
                j = j + 1;
                assert(seg_views(r@) =~= flatten(self@.take(i as int)) + seg_views(part@).take(
                    j as int,
                ));
            }
            assert(self@.take(i + 1).drop_last() =~= self@.take(i as int));
            assert(seg_views(part@).take(m as int) =~= seg_views(part@));
            assert(self@[i as int] == seg_views(part@));
            i = i + 1;
        }
        assert(self@.take(n as int) =~= self@);
        r
    }
}

/// Flattening a joined list of module outputs joins the flattened parts.
pub proof fn lemma_flatten_append(a: Seq<Seq<SegmentView>>, b: Seq<Seq<SegmentView>>)
    ensures
        flatten(a + b) == flatten(a) + flatten(b),
    decreases b.len(),
{
    if b.len() == 0 {
        assert(a + b =~= a);
        assert(flatten(a) + flatten(b) =~= flatten(a));
    } else {
        assert((a + b).drop_last() =~= a + b.drop_last());
        lemma_flatten_append(a, b.drop_last());
        assert(flatten(a) + flatten(b) =~= flatten(a) + flatten(b.drop_last()) + b.last());
    }
}

/// Modules are independent: the prompt shows the modules before `i`, then
/// module `i`'s own segments, then the modules after it; and with module `i`
/// left out, the others' segments are exactly the same, in the same order.
pub proof fn lemma_module_independence(parts: Seq<Seq<SegmentView>>, i: int)
    requires
        0 <= i < parts.len(),
    ensures
        flatten(parts) == flatten(parts.take(i)) + parts[i] + flatten(parts.skip(i + 1)),
        flatten(parts.remove(i)) == flatten(parts.take(i)) + flatten(parts.skip(i + 1)),
{
    assert(parts =~= parts.take(i) + seq![parts[i]] + parts.skip(i + 1));
    assert(parts.remove(i) =~= parts.take(i) + parts.skip(i + 1));
    lemma_flatten_append(parts.take(i) + seq![parts[i]], parts.skip(i + 1));
    lemma_flatten_append(parts.take(i), seq![parts[i]]);
    lemma_flatten_append(parts.take(i), parts.skip(i + 1));
    assert(seq![parts[i]].drop_last() =~= Seq::<Seq<SegmentView>>::empty());
    assert(flatten(Seq::<Seq<SegmentView>>::empty()) =~= Seq::<SegmentView>::empty());
    assert(flatten(seq![parts[i]]) == flatten(Seq::<Seq<SegmentView>>::empty()) + parts[i]);
    assert(flatten(seq![parts[i]]) =~= parts[i]);
}

} // verus!
