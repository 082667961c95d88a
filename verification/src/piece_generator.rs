use vstd::prelude::*;

use vstd::multiset::Multiset;

use crate::rng::rng_next_u32;
use crate::tetromino::Shape;

verus! {

/// One of each of the seven shapes.
pub open spec fn full_bag() -> Multiset<Shape> {
    seq![Shape::I, Shape::J, Shape::L, Shape::O, Shape::S, Shape::T, Shape::Z].to_multiset()
}

/// A bag: seven shapes, each of the seven exactly once.
pub open spec fn is_bag(s: Seq<Shape>) -> bool {
    s.len() == 7 && s.to_multiset() == full_bag()
}

/// A sequence that splits into consecutive groups of seven, each group a
/// bag.
pub open spec fn all_bags(s: Seq<Shape>) -> bool {
    &&& s.len() % 7 == 0
    &&& forall|k: int|
        0 <= k && 7 * k + 7 <= s.len() ==> is_bag(#[trigger] s.subrange(7 * k, 7 * k + 7))
}

/// A bag holds each of the seven shapes exactly once.
pub proof fn lemma_bag_counts(s: Seq<Shape>)
    requires
        is_bag(s),
    ensures
        forall|sh: Shape| s.to_multiset().count(sh) == 1,
{
    broadcast use vstd::seq_lib::group_to_multiset_ensures;
    broadcast use vstd::multiset::group_multiset_axioms;

    let b = seq![Shape::I, Shape::J, Shape::L, Shape::O, Shape::S, Shape::T, Shape::Z];
    assert(b =~= Seq::empty().push(Shape::I).push(Shape::J).push(Shape::L).push(Shape::O).push(
        Shape::S,
    ).push(Shape::T).push(Shape::Z));
    assert(Seq::<Shape>::empty().to_multiset() =~= Multiset::empty());
    assert forall|sh: Shape| s.to_multiset().count(sh) == 1 by {
        match sh {
            Shape::I => assert(full_bag().count(Shape::I) == 1),
            Shape::J => assert(full_bag().count(Shape::J) == 1),
            Shape::L => assert(full_bag().count(Shape::L) == 1),
            Shape::O => assert(full_bag().count(Shape::O) == 1),
            Shape::S => assert(full_bag().count(Shape::S) == 1),
            Shape::T => assert(full_bag().count(Shape::T) == 1),
            Shape::Z => assert(full_bag().count(Shape::Z) == 1),
        }
    }
}

/// Appending a bag to a bag-partitioned sequence keeps it bag-partitioned.
proof fn lemma_all_bags_extend(s: Seq<Shape>, b: Seq<Shape>)
    requires
        all_bags(s),
        is_bag(b),
    ensures
        all_bags(s + b),
{
    let t = s + b;
    assert(t.len() == s.len() + 7);
    let m = s.len() as int / 7;
    assert(s.len() == 7 * m);
    assert forall|k: int| 0 <= k && 7 * k + 7 <= t.len() implies is_bag(
        #[trigger] t.subrange(7 * k, 7 * k + 7),
    ) by {
        if 7 * k + 7 <= s.len() {
            assert(t.subrange(7 * k, 7 * k + 7) =~= s.subrange(7 * k, 7 * k + 7));
        } else {
            assert(7 * k == s.len());
            assert(t.subrange(7 * k, 7 * k + 7) =~= b);
        }
    }
}

/// Produces an unending, statistically fair sequence of shapes: a shuffled
/// bag of the seven shapes is consumed back-to-front and reshuffled when
/// exhausted, behind a lookahead queue of five entries.
///
/// Invariant (`wf`): the queue holds exactly 5 entries, the bag 1 to 7, and
/// everything ever emitted, followed by the queue and the bag's remaining
/// draws, splits into whole bags.
pub struct PieceGenerator {
    /// The lookahead queue; the next piece leaves from index 0.
    pub queue: Vec<Shape>,
    /// The current bag, consumed from the back.
    pub pack: Vec<Shape>,
    /// The injected random source that shuffles each new bag.
    pub rng: rand::rngs::SmallRng,
    /// Every shape handed out so far, oldest first.
    pub emitted: Ghost<Seq<Shape>>,
}

impl PieceGenerator {
    /// The full stream the generator has committed to: what it has emitted,
    /// then the queue, then the bag's remaining draws in draw order.
    pub open spec fn stream(self) -> Seq<Shape> {
        self.emitted@ + self.queue@ + self.pack@.reverse()
    }

    /// The generator invariant.
    pub open spec fn wf(self) -> bool {
        &&& self.queue@.len() == 5
        &&& 1 <= self.pack@.len() <= 7
        &&& all_bags(self.stream())
    }

    /// A freshly shuffled bag: a permutation of the seven shapes drawn with
    /// the given random source.
    fn shuffled_pack(rng: &mut rand::rngs::SmallRng) -> (r: Vec<Shape>)
        ensures
            is_bag(r@),
    {
        broadcast use vstd::seq_lib::group_to_multiset_ensures;
        broadcast use vstd::multiset::group_multiset_axioms;

        let mut orig: Vec<Shape> = Vec::new();
        orig.push(Shape::I);
        orig.push(Shape::J);
        orig.push(Shape::L);
        orig.push(Shape::O);
        orig.push(Shape::S);
        orig.push(Shape::T);
        orig.push(Shape::Z);
        proof {
            assert(orig@ =~= Seq::empty().push(Shape::I).push(Shape::J).push(Shape::L).push(
                Shape::O,
            ).push(Shape::S).push(Shape::T).push(Shape::Z));
            assert(orig@ =~= seq![
                Shape::I,
                Shape::J,
                Shape::L,
                Shape::O,
                Shape::S,
                Shape::T,
                Shape::Z,
            ]);
            assert(Seq::<Shape>::empty().to_multiset() =~= Multiset::empty());
            assert(orig@.to_multiset() == full_bag());
        }
        let mut out: Vec<Shape> = Vec::new();
        let mut i: usize = 7;
        while i >= 1
            invariant
                orig@.len() == i,
                out@.len() + i == 7,
                out@.to_multiset().add(orig@.to_multiset()) == full_bag(),
            decreases i,
        {
            broadcast use vstd::seq_lib::group_to_multiset_ensures;
            broadcast use vstd::multiset::group_multiset_axioms;

            let draw = rng_next_u32(rng);
            let idx = (draw as usize) % i;
            let ghost prev = orig@;
            let ghost out_prev = out@;
            let e = orig.swap_remove(idx);
            proof {
                let updated = prev.update(idx as int, prev.last());
                assert(orig@ =~= updated.remove(updated.len() - 1));
                assert(updated[updated.len() - 1] == prev.last());
                assert(orig@.to_multiset() =~= prev.to_multiset().remove(prev[idx as int]));
                assert(prev.contains(prev[idx as int]));
                assert(prev.to_multiset().count(prev[idx as int]) > 0);
            }
            out.push(e);
            proof {
                assert(out@.to_multiset() =~= out_prev.to_multiset().insert(e));
                assert(out@.to_multiset().add(orig@.to_multiset()) =~= out_prev.to_multiset().add(
                    prev.to_multiset(),
                ));
            }
            i -= 1;
        }
        proof {
            assert(orig@ =~= Seq::<Shape>::empty());
            assert(orig@.to_multiset() =~= Multiset::empty());
            assert(out@.to_multiset() =~= full_bag());
        }
        out
    }

    /// A fresh generator: one shuffled bag, of which five entries pre-seed
    /// the lookahead queue. Nothing has been emitted yet.
    pub fn new(rng: rand::rngs::SmallRng) -> (r: Self)
        ensures
            r.wf(),
            r.emitted@ == Seq::<Shape>::empty(),
    {
        let mut rng = rng;
        let mut pack = Self::shuffled_pack(&mut rng);
        let ghost bag = pack@;
        let mut queue: Vec<Shape> = Vec::new();
        let mut j: usize = 0;
        while j < 5
            invariant
                j <= 5,
                bag.len() == 7,
                queue@.len() == j,
                pack@ =~= bag.take(7 - j),
                queue@ =~= bag.skip(7 - j).reverse(),
            decreases 5 - j,
        {
            let drawn = pack.pop().unwrap();
            queue.push(drawn);
            j += 1;
            proof {
                assert(pack@ =~= bag.take(7 - j));
                assert(queue@ =~= bag.skip(7 - j).reverse());
            }
        }
        let r = PieceGenerator { queue, pack, rng, emitted: Ghost(Seq::empty()) };
        proof {
            broadcast use vstd::seq_lib::group_to_multiset_ensures;

            assert(r.stream() =~= bag.reverse());
            bag.lemma_reverse_to_multiset();
            assert(is_bag(bag.reverse()));
            assert(bag.reverse().subrange(0, 7) =~= bag.reverse());
            assert(all_bags(r.stream()));
        }
        r
    }

    /// Push one more bag draw onto the queue's back, reshuffle the bag if it
    /// emptied, then emit the queue's front. The queue holds five entries
    /// again once the call returns.
    pub fn next_piece(&mut self) -> (r: Shape)
        requires
            old(self).wf(),
        ensures
            final(self).wf(),
            r == old(self).queue@[0],
            final(self).emitted@ == old(self).emitted@.push(r),
    {
        let ghost s0 = old(self).stream();
        let drawn = self.pack.pop().unwrap();
        self.queue.push(drawn);
        proof {
            assert(old(self).pack@.reverse() =~= seq![drawn] + self.pack@.reverse());
            assert(self.stream() =~= s0);
        }
        if self.pack.len() == 0 {
            let fresh = Self::shuffled_pack(&mut self.rng);
            let ghost fresh_view = fresh@;
            self.pack = fresh;
            proof {
                assert(self.pack@.reverse().len() == 7);
                fresh_view.lemma_reverse_to_multiset();
                assert(is_bag(fresh_view.reverse()));
                lemma_all_bags_extend(s0, fresh_view.reverse());
                assert(self.stream() =~= s0 + fresh_view.reverse());
            }
        }
        let ghost s1 = self.stream();
        proof {
            assert(all_bags(s1));
        }
        let front = self.queue.remove(0);
        proof {
            assert(front == old(self).queue@[0]);
        }
        self.emitted = Ghost(self.emitted@.push(front));
        proof {
            assert(self.stream() =~= s1);
        }
        front
    }
}

/// Bag fairness: among the shapes a well-formed generator has emitted,
/// every complete consecutive group of seven — counted from the first
/// emission — holds each of the seven shapes exactly once.
pub proof fn lemma_bag_fairness(g: PieceGenerator, k: int)
    requires
        g.wf(),
        0 <= k,
        7 * k + 7 <= g.emitted@.len(),
    ensures
        is_bag(g.emitted@.subrange(7 * k, 7 * k + 7)),
        forall|sh: Shape|
            #[trigger] g.emitted@.subrange(7 * k, 7 * k + 7).to_multiset().count(sh) == 1,
{
    let s = g.stream();
    assert(g.emitted@.subrange(7 * k, 7 * k + 7) =~= s.subrange(7 * k, 7 * k + 7));
    assert(is_bag(s.subrange(7 * k, 7 * k + 7)));
    lemma_bag_counts(g.emitted@.subrange(7 * k, 7 * k + 7));
}

} // verus!
