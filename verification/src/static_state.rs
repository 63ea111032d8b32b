//! The immutable level description, partitioned at load time.

use vstd::prelude::*;

use crate::env_modifier::EnvModifier;
use crate::env_modifier::env_modifier_wf;
use crate::env_modifier::hitbox_in_static_bounds;
use crate::hitbox::Hitbox;
use crate::hitbox::hitbox_wf;
use crate::objects::ObjectType;
use crate::objects::SpeedTile;
use crate::objects::speed_tile_wf;

verus! {

/// Static level geometry: solid objects, speed tiles, lethal zones and
/// environment modifiers, all read-only during a search.
#[derive(Clone)]
pub struct StaticState {
    /// Solid collidable objects (everything that is not a spike or tile).
    pub objects: Vec<(Hitbox, ObjectType)>,
    pub speed_tiles: Vec<SpeedTile>,
    /// Lethal zones (rectangles).
    pub deadly: Vec<Hitbox>,
    pub environments: Vec<EnvModifier>,
}

/// A usable input object: valid hitbox in static bounds, and lethal zones
/// are rectangles.
pub open spec fn object_wf(h: Hitbox, t: ObjectType) -> bool {
    &&& hitbox_wf(h)
    &&& hitbox_in_static_bounds(h)
    &&& t == ObjectType::Spike ==> h.polygon.outline@.len() == 4
}

/// A usable level: every hitbox valid and in static bounds, every lethal
/// zone a rectangle, every modifier valid.
pub open spec fn static_wf(s: StaticState) -> bool {
    &&& forall|i: int| 0 <= i < s.objects@.len()
        ==> hitbox_wf((#[trigger] s.objects@[i]).0) && hitbox_in_static_bounds(s.objects@[i].0)
    &&& forall|i: int| 0 <= i < s.speed_tiles@.len() ==> speed_tile_wf(#[trigger] s.speed_tiles@[i])
    &&& forall|i: int| 0 <= i < s.deadly@.len()
        ==> hitbox_wf(#[trigger] s.deadly@[i]) && hitbox_in_static_bounds(s.deadly@[i])
            && s.deadly@[i].polygon.outline@.len() == 4
    &&& forall|i: int| 0 <= i < s.environments@.len()
        ==> env_modifier_wf(#[trigger] s.environments@[i])
}

/// The solid objects of the input, in order.
pub open spec fn walls_of(objs: Seq<(Hitbox, ObjectType)>, i: int) -> Seq<(Hitbox, ObjectType)>
    decreases objs.len() - i,
{
    if i < 0 || i >= objs.len() {
        Seq::empty()
    } else {
        let rest = walls_of(objs, i + 1);
        if objs[i].1 == ObjectType::SpeedTile || objs[i].1 == ObjectType::Spike {
            rest
        } else {
            seq![objs[i]] + rest
        }
    }
}

/// The speed tiles of the input, in order.
pub open spec fn tiles_of(objs: Seq<(Hitbox, ObjectType)>, i: int) -> Seq<SpeedTile>
    decreases objs.len() - i,
{
    if i < 0 || i >= objs.len() {
        Seq::empty()
    } else {
        let rest = tiles_of(objs, i + 1);
        if objs[i].1 == ObjectType::SpeedTile {
            seq![SpeedTile { hitbox: objs[i].0 }] + rest
        } else {
            rest
        }
    }
}

/// The lethal zones of the input, in order.
pub open spec fn spikes_of(objs: Seq<(Hitbox, ObjectType)>, i: int) -> Seq<Hitbox>
    decreases objs.len() - i,
{
    if i < 0 || i >= objs.len() {
        Seq::empty()
    } else {
        let rest = spikes_of(objs, i + 1);
        if objs[i].1 == ObjectType::Spike {
            seq![objs[i].0] + rest
        } else {
            rest
        }
    }
}

impl StaticState {
    /// Partition the level's objects into solids, speed tiles and lethal
    /// zones, keeping the given order within each class.
    pub fn new(objects: Vec<(Hitbox, ObjectType)>, environments: Vec<EnvModifier>) -> (r: Self)
        requires
            forall|i: int| 0 <= i < objects@.len()
                ==> object_wf((#[trigger] objects@[i]).0, objects@[i].1),
            forall|i: int| 0 <= i < environments@.len()
                ==> env_modifier_wf(#[trigger] environments@[i]),
        ensures
            r.objects@ == walls_of(objects@, 0),
            r.speed_tiles@ == tiles_of(objects@, 0),
            r.deadly@ == spikes_of(objects@, 0),
            r.environments@ == environments@,
            static_wf(r),
    {
        let ghost input = objects@;
        let n0: usize = objects.len();
        let mut rest = objects;
        let mut speed_tiles: Vec<SpeedTile> = Vec::new();
        let mut deadly: Vec<Hitbox> = Vec::new();
        let mut other_objects: Vec<(Hitbox, ObjectType)> = Vec::new();
        let mut i: usize = 0;
        proof {
            assert(input.len() == n0);
            assert(rest@ =~= input.skip(0));
        }
        while rest.len() > 0
            invariant
                0 <= i <= input.len(),
                input.len() <= usize::MAX,
                rest@ == input.skip(i as int),
                forall|k: int| 0 <= k < input.len()
                    ==> object_wf((#[trigger] input[k]).0, input[k].1),
                other_objects@ + walls_of(input, i as int) == walls_of(input, 0),
                speed_tiles@ + tiles_of(input, i as int) == tiles_of(input, 0),
                deadly@ + spikes_of(input, i as int) == spikes_of(input, 0),
                forall|k: int| 0 <= k < other_objects@.len()
                    ==> hitbox_wf((#[trigger] other_objects@[k]).0)
                        && hitbox_in_static_bounds(other_objects@[k].0),
                forall|k: int| 0 <= k < speed_tiles@.len()
                    ==> speed_tile_wf(#[trigger] speed_tiles@[k]),
                forall|k: int| 0 <= k < deadly@.len()
                    ==> hitbox_wf(#[trigger] deadly@[k])
                        && hitbox_in_static_bounds(deadly@[k])
                        && deadly@[k].polygon.outline@.len() == 4,
            decreases rest@.len(),
        {
            proof {
                assert(input.skip(i as int).len() == input.len() - i);
                assert(i < input.len());
                assert(rest@[0] == input[i as int]);
            }
            let (hitbox, t) = rest.remove(0);
            proof {
                assert(rest@ =~= input.skip((i + 1) as int));
                assert(object_wf(input[i as int].0, input[i as int].1));
            }
            match t {
                ObjectType::SpeedTile => {
                    speed_tiles.push(SpeedTile::new(hitbox));
                    proof {
                        assert(speed_tiles@ + tiles_of(input, (i + 1) as int)
                            =~= speed_tiles@.drop_last() + tiles_of(input, i as int));
                    }
                }
                ObjectType::Spike => {
                    deadly.push(hitbox);
                    proof {
                        assert(deadly@ + spikes_of(input, (i + 1) as int)
                            =~= deadly@.drop_last() + spikes_of(input, i as int));
                    }
                }
                ObjectType::Wall => {
                    other_objects.push((hitbox, t));
                    proof {
                        assert(other_objects@ + walls_of(input, (i + 1) as int)
                            =~= other_objects@.drop_last() + walls_of(input, i as int));
                    }
                }
            }
            i = i + 1;
        }
        proof {
            assert(i == input.len());
            assert(walls_of(input, i as int) =~= Seq::<(Hitbox, ObjectType)>::empty());
            assert(tiles_of(input, i as int) =~= Seq::<SpeedTile>::empty());
            assert(spikes_of(input, i as int) =~= Seq::<Hitbox>::empty());
            assert(other_objects@ + walls_of(input, i as int) =~= other_objects@);
            assert(speed_tiles@ + tiles_of(input, i as int) =~= speed_tiles@);
            assert(deadly@ + spikes_of(input, i as int) =~= deadly@);
        }
        StaticState {
            objects: other_objects,
            speed_tiles,
            deadly,
            environments,
        }
    }
}

} // verus!
