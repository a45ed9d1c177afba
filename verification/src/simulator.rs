//! The scene: an insertion-ordered collection of dominoes, unique by id.

use vstd::prelude::*;
use crate::scalar::{Point3, Scalar, Vector3, ONE_BITS, TWO_BITS, ZERO_BITS};

verus! {

/// Where a domino stands and how it is turned.
#[derive(Clone, Copy, PartialEq, Eq, Debug, Structural)]
pub struct Pose {
    /// Centre of the base, in world space.
    pub position: Point3,
    /// Yaw about the world up axis, in degrees; applied before the fall rotation.
    pub rotation_y: Scalar,
    /// Tip angle about the base centreline, in degrees from -90 to 90.
    pub fall_rotation: Scalar,
    /// Width, height and depth factors.
    pub scale: Vector3,
}

/// One domino of the scene. Its id is fixed when it is created.
#[derive(Clone, Copy, PartialEq, Eq, Debug, Structural)]
pub struct Domino {
    pub pose: Pose,
    pub id: u32,
}

/// Bit pattern of `90.0`.
pub const NINETY_BITS: u32 = 0x42B4_0000;

/// Bit pattern of `45.0`.
pub const FORTY_FIVE_BITS: u32 = 0x4234_0000;

/// Bit pattern of `10.0`.
pub const TEN_BITS: u32 = 0x4120_0000;

/// Bit pattern of `0.3`.
pub const THREE_TENTHS_BITS: u32 = 0x3E99_999A;

impl Pose {
    /// The pose with the given position and angles, at scale (1, 1, 1).
    pub open spec fn spec_unscaled(x: u32, y: u32, z: u32, rotation_y: u32, fall_rotation: u32) -> Pose {
        Pose {
            position: Point3 { x: Scalar { bits: x }, y: Scalar { bits: y }, z: Scalar { bits: z } },
            rotation_y: Scalar { bits: rotation_y },
            fall_rotation: Scalar { bits: fall_rotation },
            scale: Vector3 {
                x: Scalar { bits: ONE_BITS },
                y: Scalar { bits: ONE_BITS },
                z: Scalar { bits: ONE_BITS },
            },
        }
    }

    /// The pose with the given position and angles, each given as a bit
    /// pattern, at scale (1, 1, 1).
    #[verifier::when_used_as_spec(spec_unscaled)]
    pub fn unscaled(x: u32, y: u32, z: u32, rotation_y: u32, fall_rotation: u32) -> (pose: Pose)
        ensures
            pose == Pose::spec_unscaled(x, y, z, rotation_y, fall_rotation),
    {
        Pose {
            position: Point3 { x: Scalar { bits: x }, y: Scalar { bits: y }, z: Scalar { bits: z } },
            rotation_y: Scalar { bits: rotation_y },
            fall_rotation: Scalar { bits: fall_rotation },
            scale: Vector3 {
                x: Scalar { bits: ONE_BITS },
                y: Scalar { bits: ONE_BITS },
                z: Scalar { bits: ONE_BITS },
            },
        }
    }

    /// The pose of a new domino: at the origin, not turned, not tipped, at
    /// scale (1, 1, 1).
    pub open spec fn spec_initial() -> Pose {
        Pose::spec_unscaled(ZERO_BITS, ZERO_BITS, ZERO_BITS, ZERO_BITS, ZERO_BITS)
    }

    /// The pose of a new domino.
    #[verifier::when_used_as_spec(spec_initial)]
    pub fn initial() -> (pose: Pose)
        ensures
            pose == Pose::spec_initial(),
    {
        Pose::unscaled(ZERO_BITS, ZERO_BITS, ZERO_BITS, ZERO_BITS, ZERO_BITS)
    }
}

impl Domino {
    /// The domino with the given id and pose.
    pub open spec fn spec_new(id: u32, pose: Pose) -> Domino {
        Domino { pose, id }
    }
}

/// No two dominoes of `s` share an id.
pub open spec fn unique_ids(s: Seq<Domino>) -> bool {
    forall|i: int, j: int| 0 <= i < j < s.len() ==> s[i].id != s[j].id
}

/// The ids of `s`, in its order.
pub open spec fn ids_of(s: Seq<Domino>) -> Seq<u32> {
    Seq::new(s.len(), |i: int| s[i].id)
}

/// Some domino of `s` has the id `id`.
pub open spec fn has_id(s: Seq<Domino>, id: u32) -> bool {
    exists|i: int| 0 <= i < s.len() && s[i].id == id
}

/// `i` is the first place in `s` at which the id `id` stands.
pub open spec fn is_first_with_id(s: Seq<Domino>, id: u32, i: int) -> bool {
    &&& 0 <= i < s.len()
    &&& s[i].id == id
    &&& forall|j: int| 0 <= j < i ==> s[j].id != id
}

/// The place in `s` of the domino with the id `id`, where there is one: the
/// first, should `s` hold the id more than once.
pub open spec fn index_of_id(s: Seq<Domino>, id: u32) -> int {
    choose|i: int| is_first_with_id(s, id, i)
}

/// The largest id in `s`, or -1 where `s` is empty.
pub open spec fn max_id(s: Seq<Domino>) -> int
    decreases s.len(),
{
    if s.len() == 0 {
        -1
    } else {
        let rest = max_id(s.drop_last());
        if s.last().id > rest {
            s.last().id as int
        } else {
            rest
        }
    }
}

/// The id that the next domino created in `s` gets: 0 in an empty scene,
/// else one more than the largest id.
pub open spec fn next_id(s: Seq<Domino>) -> int {
    max_id(s) + 1
}

/// The four dominoes that a new scene holds.
pub open spec fn example_scene() -> Seq<Domino> {
    seq![
        Domino { pose: Pose::spec_unscaled(ZERO_BITS, ZERO_BITS, ZERO_BITS, ZERO_BITS, ZERO_BITS), id: 0 },
        Domino { pose: Pose::spec_unscaled(ONE_BITS, ZERO_BITS, ONE_BITS, ZERO_BITS, NINETY_BITS), id: 1 },
        Domino { pose: Pose::spec_unscaled(ZERO_BITS, ZERO_BITS, TWO_BITS, NINETY_BITS, FORTY_FIVE_BITS), id: 2 },
        Domino { pose: Pose::spec_unscaled(THREE_TENTHS_BITS, ZERO_BITS, TWO_BITS, ZERO_BITS, TEN_BITS), id: 3 },
    ]
}

/// `max_id` is an upper bound of the ids of `s`, and the id of one of its
/// dominoes unless `s` is empty.
pub proof fn lemma_max_id(s: Seq<Domino>)
    ensures
        forall|i: int| 0 <= i < s.len() ==> s[i].id <= max_id(s),
        s.len() > 0 ==> exists|i: int| 0 <= i < s.len() && s[i].id == max_id(s),
        s.len() == 0 ==> max_id(s) == -1,
    decreases s.len(),
{
    if s.len() > 0 {
        let rest = s.drop_last();
        lemma_max_id(rest);
        assert forall|i: int| 0 <= i < s.len() implies s[i].id <= max_id(s) by {
            if i < rest.len() {
                assert(rest[i] == s[i]);
            }
        }
        if s.last().id > max_id(rest) {
            assert(s[s.len() - 1].id == max_id(s));
        } else {
            let k = choose|k: int| 0 <= k < rest.len() && rest[k].id == max_id(rest);
            assert(s[k].id == max_id(s));
        }
    }
}

/// The id of the next domino is 0 in an empty scene; in any other it is one
/// more than the id of one of its dominoes and greater than the id of each.
pub proof fn lemma_next_id(s: Seq<Domino>)
    ensures
        s.len() == 0 ==> next_id(s) == 0,
        s.len() > 0 ==> exists|i: int| 0 <= i < s.len() && next_id(s) == s[i].id + 1,
        forall|i: int| 0 <= i < s.len() ==> s[i].id < next_id(s),
        0 <= next_id(s) <= u32::MAX + 1,
{
    lemma_max_id(s);
    if s.len() > 0 {
        let k = choose|k: int| 0 <= k < s.len() && s[k].id == max_id(s);
        assert(next_id(s) == s[k].id + 1);
    }
}

/// The place of an id is the first place at which it stands.
pub proof fn lemma_index_of_id(s: Seq<Domino>, id: u32, i: int)
    requires
        is_first_with_id(s, id, i),
    ensures
        has_id(s, id),
        index_of_id(s, id) == i,
{
    let k = index_of_id(s, id);
    assert(is_first_with_id(s, id, k));
}

/// In a scene without a repeated id, the place of an id is the one place at
/// which it stands.
pub proof fn lemma_index_of_unique_id(s: Seq<Domino>, id: u32, i: int)
    requires
        unique_ids(s),
        0 <= i < s.len(),
        s[i].id == id,
    ensures
        has_id(s, id),
        index_of_id(s, id) == i,
{
    assert(is_first_with_id(s, id, i));
    lemma_index_of_id(s, id, i);
}

/// The scene of dominoes. No two of its dominoes share an id.
pub struct Simulator {
    dominos: Vec<Domino>,
}

impl View for Simulator {
    type V = Seq<Domino>;

    closed spec fn view(&self) -> Seq<Domino> {
        self.dominos@
    }
}

impl Simulator {
    /// No two dominoes of the scene share an id.
    pub open spec fn wf(&self) -> bool {
        unique_ids(self@)
    }

    /// The scene at start: the four example dominoes, with the ids 0 to 3.
    pub fn new() -> (scene: Simulator)
        ensures
            scene@ == example_scene(),
            scene.wf(),
    {
        let mut dominos: Vec<Domino> = Vec::new();
        dominos.push(
            Domino { pose: Pose::unscaled(ZERO_BITS, ZERO_BITS, ZERO_BITS, ZERO_BITS, ZERO_BITS), id: 0 },
        );
        dominos.push(
            Domino { pose: Pose::unscaled(ONE_BITS, ZERO_BITS, ONE_BITS, ZERO_BITS, NINETY_BITS), id: 1 },
        );
        dominos.push(
            Domino {
                pose: Pose::unscaled(ZERO_BITS, ZERO_BITS, TWO_BITS, NINETY_BITS, FORTY_FIVE_BITS),
                id: 2,
            },
        );
        dominos.push(
            Domino {
                pose: Pose::unscaled(THREE_TENTHS_BITS, ZERO_BITS, TWO_BITS, ZERO_BITS, TEN_BITS),
                id: 3,
            },
        );
        assert(dominos@ =~= example_scene());
        Simulator { dominos }
    }

    /// A scene without dominoes.
    pub fn empty() -> (scene: Simulator)
        ensures
            scene@ == Seq::<Domino>::empty(),
            scene.wf(),
    {
        Simulator { dominos: Vec::new() }
    }

    /// The dominoes in insertion order, which is the order in which they are
    /// drawn and picked.
    pub fn dominos(&self) -> (all: &Vec<Domino>)
        ensures
            all@ == self@,
    {
        &self.dominos
    }

    /// The number of dominoes.
    pub fn len(&self) -> (n: usize)
        ensures
            n == self@.len(),
    {
        self.dominos.len()
    }

    /// The id that `create_domino` would assign, or `None` where the largest
    /// id of the scene is the largest number that an id can be.
    pub fn next_id(&self) -> (next: Option<u32>)
        ensures
            next matches Some(id) ==> id == next_id(self@),
            next is None <==> next_id(self@) > u32::MAX,
    {
        let mut largest: Option<u32> = None;
        let mut i: usize = 0;
        while i < self.dominos.len()
            invariant
                i <= self.dominos.len(),
                largest matches Some(m) ==> m == max_id(self.dominos@.take(i as int)),
                largest is None ==> max_id(self.dominos@.take(i as int)) == -1,
            decreases self.dominos.len() - i,
        {
            let id = self.dominos[i].id;
            proof {
                let upto = self.dominos@.take(i as int + 1);
                assert(upto.drop_last() =~= self.dominos@.take(i as int));
                assert(upto.last() == self.dominos@[i as int]);
            }
            largest = match largest {
                Some(m) => if id > m { Some(id) } else { Some(m) },
                None => Some(id),
            };
            i += 1;
        }
        assert(self.dominos@.take(i as int) =~= self.dominos@);
        match largest {
            None => Some(0),
            Some(m) => if m == u32::MAX { None } else { Some(m + 1) },
        }
    }

    /// Appends a domino in the initial pose and returns its id: 0 in an empty
    /// scene, else one more than the largest id of the scene.
    pub fn create_domino(&mut self) -> (id: u32)
        requires
            next_id(old(self)@) <= u32::MAX,
        ensures
            id == next_id(old(self)@),
            final(self)@ == old(self)@.push(Domino::spec_new(id, Pose::spec_initial())),
            old(self).wf() ==> final(self).wf(),
    {
        let id = match self.next_id() {
            Some(id) => id,
            None => 0,
        };
        proof {
            lemma_max_id(self@);
        }
        self.dominos.push(Domino { pose: Pose::initial(), id });
        id
    }

    /// Removes the domino with the id `id` and returns it. A scene that holds
    /// no such domino stays as it is.
    pub fn delete_domino(&mut self, id: u32) -> (removed: Option<Domino>)
        ensures
            removed is Some <==> has_id(old(self)@, id),
            removed matches Some(d) ==> {
                let i = index_of_id(old(self)@, id);
                &&& d == old(self)@[i]
                &&& final(self)@ == old(self)@.remove(i)
            },
            removed is None ==> final(self)@ == old(self)@,
            old(self).wf() ==> final(self).wf() && !has_id(final(self)@, id),
    {
        match self.position(id) {
            Some(i) => {
                let d = self.dominos.remove(i);
                proof {
                    let before = old(self)@;
                    let after = self@;
                    if unique_ids(before) {
                        assert forall|j: int| 0 <= j < after.len() implies after[j].id != id by {
                            if j < i {
                                assert(after[j] == before[j]);
                            } else {
                                assert(after[j] == before[j + 1]);
                            }
                        }
                        assert forall|j: int, k: int| 0 <= j < k < after.len() implies after[j].id
                            != after[k].id by {
                            let from_j = if j < i { j } else { j + 1 };
                            let from_k = if k < i { k } else { k + 1 };
                            assert(after[j] == before[from_j]);
                            assert(after[k] == before[from_k]);
                        }
                    }
                }
                Some(d)
            },
            None => None,
        }
    }

    /// The domino with the id `id`, if the scene holds one.
    pub fn get_domino(&self, id: u32) -> (found: Option<&Domino>)
        ensures
            found is Some <==> has_id(self@, id),
            found matches Some(d) ==> *d == self@[index_of_id(self@, id)],
    {
        match self.position(id) {
            Some(i) => Some(&self.dominos[i]),
            None => None,
        }
    }

    /// The place of the domino with the id `id` in insertion order, if the
    /// scene holds one.
    pub fn position(&self, id: u32) -> (found: Option<usize>)
        ensures
            found is Some <==> has_id(self@, id),
            found matches Some(i) ==> i == index_of_id(self@, id) && is_first_with_id(
                self@,
                id,
                i as int,
            ),
    {
        let mut i: usize = 0;
        while i < self.dominos.len()
            invariant
                i <= self.dominos.len(),
                forall|j: int| 0 <= j < i ==> self.dominos@[j].id != id,
            decreases self.dominos.len() - i,
        {
            if self.dominos[i].id == id {
                proof {
                    lemma_index_of_id(self@, id, i as int);
                }
                return Some(i);
            }
            i += 1;
        }
        None
    }

    /// The pose of the domino with the id `id`, for editing, if the scene
    /// holds one. Whatever the caller writes, the ids of the scene stay.
    pub fn get_domino_mut(&mut self, id: u32) -> (found: Option<&mut Pose>)
        ensures
            found is Some <==> has_id(old(self)@, id),
            found matches Some(pose) ==> {
                let i = index_of_id(old(self)@, id);
                &&& *pose == old(self)@[i].pose
                &&& final(self)@ == old(self)@.update(i, Domino::spec_new(id, *final(pose)))
            },
            found is None ==> final(self)@ == old(self)@,
            ids_of(final(self)@) == ids_of(old(self)@),
            old(self).wf() ==> final(self).wf(),
    {
        match self.position(id) {
            Some(i) => Some(&mut self.dominos[i].pose),
            None => None,
        }
    }
}

} // verus!
