//! Doors and the goals that deal with them: which blocks count as doors a
//! mob may use, where a mob looks for a door, and how a zombie breaks one
//! down over several ticks.  Distances and facing are measured by the caller
//! on the mob's position; the goals here decide on the results.
use vstd::prelude::*;

use crate::entity::goals::Controls;

verus! {

/// A block position.
#[derive(Clone, Copy, Debug, PartialEq, Eq, Structural)]
pub struct BlockPos {
    pub x: i32,
    pub y: i32,
    pub z: i32,
}

/// Whether a coordinate leaves room for a neighbour on both sides.
pub open spec fn inner_coord(c: i32) -> bool {
    i32::MIN < c < i32::MAX
}

/// Whether every coordinate of a position leaves room for a neighbour.
pub open spec fn inner_pos(p: BlockPos) -> bool {
    inner_coord(p.x) && inner_coord(p.y) && inner_coord(p.z)
}

/// The block tags that make a block a door.
#[derive(Clone, Copy, Debug, PartialEq, Eq, Structural)]
pub struct DoorTags {
    pub wooden_doors: bool,
    pub mob_interactable_doors: bool,
    pub doors: bool,
}

/// A mob may use a door that carries one of the door tags, unless it is
/// an iron door.
pub fn is_wooden_door(tags: DoorTags, iron_door: bool) -> (r: bool)
    ensures
        r == ((tags.wooden_doors || tags.mob_interactable_doors || tags.doors) && !iron_door),
{
    (tags.wooden_doors || tags.mob_interactable_doors || tags.doors) && !iron_door
}

/// A door is open when it is a door a mob may use and its `open` property
/// is set.
pub fn is_door_open(wooden_door: bool, open_property: bool) -> (r: bool)
    ensures
        r == (wooden_door && open_property),
{
    wooden_door && open_property
}

/// The two blocks a path node offers: the node and the block above it.
pub open spec fn node_candidate(nodes: Seq<BlockPos>, k: int) -> BlockPos {
    let n = nodes[k / 2];
    BlockPos { y: (n.y + k % 2) as i32, ..n }
}

/// The nodes of the current path that are looked at: up to two past the
/// next node.
pub open spec fn path_limit(node_count: int, next_index: int) -> int {
    if next_index + 2 < node_count {
        next_index + 2
    } else {
        node_count
    }
}

/// The offsets `(x, y, z)` around the mob's block that are looked at, in
/// order.
pub open spec fn around_offsets() -> Seq<(i32, i32, i32)> {
    seq![
        (0i32, 0i32, 0i32),
        (0i32, 1i32, 0i32),
        (1i32, 0i32, 0i32),
        (1i32, 1i32, 0i32),
        (-1i32, 0i32, 0i32),
        (-1i32, 1i32, 0i32),
        (0i32, 0i32, 1i32),
        (0i32, 1i32, 1i32),
        (0i32, 0i32, -1i32),
        (0i32, 1i32, -1i32),
    ]
}

/// The blocks around the mob's block that are looked at, in order.
pub open spec fn around_candidates(base: BlockPos) -> Seq<BlockPos> {
    Seq::new(
        10,
        |k: int|
            {
                let o = around_offsets()[k];
                BlockPos {
                    x: (base.x + o.0) as i32,
                    y: (base.y + o.1) as i32,
                    z: (base.z + o.2) as i32,
                }
            },
    )
}

/// Where a mob looks for a door, in order: while it follows a path, the
/// path's nodes up to two past the next one, each with the block above it;
/// then its own block and the blocks beside it, each with the block above.
pub open spec fn door_candidates_of(
    nodes: Seq<BlockPos>,
    next_index: int,
    following_path: bool,
    base: BlockPos,
) -> Seq<BlockPos> {
    let on_path = if following_path {
        Seq::new(
            (2 * path_limit(nodes.len() as int, next_index)) as nat,
            |k: int| node_candidate(nodes, k),
        )
    } else {
        Seq::<BlockPos>::empty()
    };
    on_path + around_candidates(base)
}

/// The blocks a mob looks at for a door, in the order it looks at them.
pub fn door_candidates(nodes: &Vec<BlockPos>, next_index: usize, following_path: bool, base: BlockPos) -> (r:
    Vec<BlockPos>)
    requires
        next_index <= nodes.len(),
        forall|i: int| 0 <= i < nodes.len() ==> #[trigger] nodes@[i].y < i32::MAX,
        inner_pos(base),
    ensures
        r@ == door_candidates_of(nodes@, next_index as int, following_path, base),
{
    let mut out: Vec<BlockPos> = Vec::new();
    if following_path {
        let limit = if nodes.len() - next_index > 2 {
            next_index + 2
        } else {
            nodes.len()
        };
        let mut i: usize = 0;
        while i < limit
            invariant
                limit == path_limit(nodes.len() as int, next_index as int),
                limit <= nodes.len(),
                i <= limit,
                forall|j: int| 0 <= j < nodes.len() ==> #[trigger] nodes@[j].y < i32::MAX,
                out@.len() == 2 * i,
                forall|k: int| 0 <= k < 2 * i ==> #[trigger] out@[k] == node_candidate(nodes@, k),
            decreases limit - i,
        {
            let n = nodes[i];
            assert(nodes@[i as int].y < i32::MAX);
            out.push(n);
            out.push(BlockPos { x: n.x, y: n.y + 1, z: n.z });
            proof {
                assert(node_candidate(nodes@, 2 * i) == n) by {
                    assert((2 * i) / 2 == i);
                    assert((2 * i) % 2 == 0);
                }
                assert(node_candidate(nodes@, 2 * i + 1) == BlockPos { y: (n.y + 1) as i32, ..n }) by {
                    assert((2 * i + 1) / 2 == i);
                    assert((2 * i + 1) % 2 == 1);
                }
            }
            i = i + 1;
        }
    }
    let ghost path_part = out@;
    let offsets: [(i32, i32, i32); 10] = [
        (0, 0, 0),
        (0, 1, 0),
        (1, 0, 0),
        (1, 1, 0),
        (-1, 0, 0),
        (-1, 1, 0),
        (0, 0, 1),
        (0, 1, 1),
        (0, 0, -1),
        (0, 1, -1),
    ];
    assert(offsets@ == around_offsets());
    let mut j: usize = 0;
    while j < 10
        invariant
            j <= 10,
            offsets@ == around_offsets(),
            inner_pos(base),
            out@.len() == path_part.len() + j,
            forall|k: int| 0 <= k < path_part.len() ==> #[trigger] out@[k] == path_part[k],
            forall|k: int|
                0 <= k < j ==> #[trigger] out@[path_part.len() + k] == around_candidates(base)[k],
        decreases 10 - j,
    {
        let o = offsets[j];
        out.push(BlockPos { x: base.x + o.0, y: base.y + o.1, z: base.z + o.2 });
        j = j + 1;
    }
    proof {
        let expected = door_candidates_of(nodes@, next_index as int, following_path, base);
        assert(path_part.len() + 10 == expected.len());
        assert forall|k: int| 0 <= k < expected.len() implies out@[k] == expected[k] by {
            if k >= path_part.len() {
                assert(out@[path_part.len() + (k - path_part.len())] == around_candidates(base)[k
                    - path_part.len()]);
            }
        }
        assert(out@ =~= expected);
    }
    out
}

/// The first candidate that the caller found to be a usable door within
/// reach.
pub open spec fn first_usable(usable: Seq<bool>) -> Option<int>
    decreases usable.len(),
{
    if usable.len() == 0 {
        None
    } else if usable[0] {
        Some(0)
    } else {
        match first_usable(usable.drop_first()) {
            Some(i) => Some(i + 1),
            None => None,
        }
    }
}

/// The door a mob uses: the first candidate that is a door a mob may use
/// within two blocks of it, as the caller measured.
pub fn find_door_pos(candidates: &Vec<BlockPos>, usable: &Vec<bool>) -> (r: Option<BlockPos>)
    requires
        candidates.len() == usable.len(),
    ensures
        r == (match first_usable(usable@) {
            Some(i) => Some(candidates@[i]),
            None => None,
        }),
{
    let mut i: usize = 0;
    assert(usable@.skip(0) =~= usable@);
    while i < usable.len()
        invariant
            i <= usable.len() == candidates.len(),
            forall|k: int| 0 <= k < i ==> !#[trigger] usable@[k],
            first_usable(usable@) == (match first_usable(usable@.skip(i as int)) {
                Some(j) => Some(j + i),
                None => None,
            }),
        decreases usable.len() - i,
    {
        if usable[i] {
            proof {
                assert(usable@.skip(i as int)[0]);
            }
            return Some(candidates[i]);
        }
        proof {
            assert(usable@.skip(i as int).drop_first() =~= usable@.skip(i + 1));
        }
        i = i + 1;
    }
    proof {
        assert(usable@.skip(i as int).len() == 0);
    }
    None
}

/// A mob opening or passing through a door.
#[derive(Clone, Copy, Debug, PartialEq, Eq, Structural)]
pub struct DoorInteractGoal {
    pub door_pos: BlockPos,
    pub has_door: bool,
    /// The mob has walked past the door.
    pub passed: bool,
}

impl DoorInteractGoal {
    /// No door yet.
    pub fn new() -> (r: DoorInteractGoal)
        ensures
            r == DoorInteractGoal::new_spec(),
    {
        DoorInteractGoal { door_pos: BlockPos { x: 0, y: 0, z: 0 }, has_door: false, passed: false }
    }

    /// The goal claims no control.
    pub fn controls(&self) -> (r: Controls)
        ensures
            r.bits == 0,
    {
        Controls::empty()
    }

    /// The goal starts when a door was found, which it remembers.
    pub fn can_start(&mut self, found: Option<BlockPos>) -> (r: bool)
        ensures
            r == found is Some,
            r ==> *final(self) == (DoorInteractGoal {
                door_pos: found->0,
                has_door: true,
                ..*old(self)
            }),
            !r ==> *final(self) == *old(self),
    {
        match found {
            Some(p) => {
                self.door_pos = p;
                self.has_door = true;
                true
            },
            None => false,
        }
    }

    /// The goal goes on until the mob has passed the door.
    pub fn should_continue(&self) -> (r: bool)
        ensures
            r == !self.passed,
    {
        !self.passed
    }

    /// Starting forgets an earlier pass.
    pub fn start(&mut self)
        ensures
            *final(self) == (DoorInteractGoal { passed: false, ..*old(self) }),
    {
        self.passed = false;
    }

    /// Each tick the mob has passed the door once the direction to the door
    /// points against the direction it had at the start (their dot product
    /// is negative, as the caller measured).
    pub fn tick(&mut self, behind_start_direction: bool)
        ensures
            *final(self) == (DoorInteractGoal {
                passed: old(self).passed || behind_start_direction,
                ..*old(self)
            }),
    {
        if behind_start_direction {
            self.passed = true;
        }
    }
}

/// The ticks a zombie needs to break a door down.
pub const DOOR_BREAK_TIME: u32 = 240;

/// The breaking stage a door shows when it has no breaking time.
pub const LAST_BREAK_STAGE: i32 = 9;

/// A zombie breaking a door down.
#[derive(Clone, Copy, Debug, PartialEq, Eq, Structural)]
pub struct BreakDoorGoal {
    pub door_interact: DoorInteractGoal,
    pub break_progress: u32,
    /// The breaking stage last shown, -1 for none.
    pub last_break_progress: i32,
    pub door_break_time: u32,
}

/// What one tick of breaking decides after the stage was computed.
#[derive(Clone, Copy, Debug, PartialEq, Eq, Structural)]
pub struct BreakStep {
    /// The shown breaking stage changes.
    pub show_stage: bool,
    /// The door is destroyed (with its other half).
    pub break_door: bool,
}

impl BreakDoorGoal {
    /// A goal that breaks doors in 240 ticks.
    pub fn new() -> (r: BreakDoorGoal)
        ensures
            r.break_progress == 0,
            r.last_break_progress == -1,
            r.door_break_time == DOOR_BREAK_TIME,
            r.door_interact == DoorInteractGoal::new_spec(),
    {
        Self::with_break_time(DOOR_BREAK_TIME)
    }

    /// A goal that breaks doors in the given number of ticks.
    pub fn with_break_time(door_break_time: u32) -> (r: BreakDoorGoal)
        ensures
            r.break_progress == 0,
            r.last_break_progress == -1,
            r.door_break_time == door_break_time,
            r.door_interact == DoorInteractGoal::new_spec(),
    {
        BreakDoorGoal {
            door_interact: DoorInteractGoal::new(),
            break_progress: 0,
            last_break_progress: -1,
            door_break_time,
        }
    }

    /// The goal claims movement.
    pub fn controls(&self) -> (r: Controls)
        ensures
            r.bits == crate::entity::goals::MOVE_BIT,
    {
        Controls::movement()
    }

    /// The goal starts when the mob may break doors, the difficulty is
    /// hard, mobs may grief, and a closed door was found (given with
    /// whether it is open); the door is remembered.
    pub fn can_start(
        &mut self,
        can_break_doors: bool,
        hard: bool,
        mob_griefing: bool,
        found: Option<(BlockPos, bool)>,
    ) -> (r: bool)
        ensures
            r == (can_break_doors && hard && mob_griefing && (found matches Some((_, open)) && !open)),
            r ==> (found matches Some((pos, _)) && final(self).door_interact == (DoorInteractGoal {
                door_pos: pos,
                has_door: true,
                ..old(self).door_interact
            })),
            !r ==> final(self).door_interact == old(self).door_interact,
            final(self).break_progress == old(self).break_progress,
            final(self).last_break_progress == old(self).last_break_progress,
            final(self).door_break_time == old(self).door_break_time,
    {
        if !can_break_doors || !hard || !mob_griefing {
            return false;
        }
        match found {
            Some((pos, open)) => if !open {
                self.door_interact.door_pos = pos;
                self.door_interact.has_door = true;
                true
            } else {
                false
            },
            None => false,
        }
    }

    /// Breaking goes on while it has not run past the breaking time, the
    /// difficulty is hard, mobs may grief, the block is still a closed door
    /// a mob may use, and the mob is within two blocks of it.
    pub fn should_continue(&self, hard: bool, mob_griefing: bool, wooden_door: bool, open: bool, near: bool) -> (r:
        bool)
        ensures
            r == (self.break_progress <= self.door_break_time && hard && mob_griefing && wooden_door
                && !open && near),
    {
        self.break_progress <= self.door_break_time && hard && mob_griefing && wooden_door && !open
            && near
    }

    /// Starting resets the progress and the shown stage.
    pub fn start(&mut self)
        ensures
            final(self).break_progress == 0,
            final(self).last_break_progress == -1,
            final(self).door_interact == (DoorInteractGoal {
                passed: false,
                ..old(self).door_interact
            }),
            final(self).door_break_time == old(self).door_break_time,
    {
        self.break_progress = 0;
        self.last_break_progress = -1;
        self.door_interact.passed = false;
    }

    /// Stopping forgets the door and resets the progress.
    pub fn stop(&mut self)
        ensures
            final(self).break_progress == 0,
            final(self).last_break_progress == -1,
            final(self).door_interact == (DoorInteractGoal {
                has_door: false,
                ..old(self).door_interact
            }),
            final(self).door_break_time == old(self).door_break_time,
    {
        self.door_interact.has_door = false;
        self.break_progress = 0;
        self.last_break_progress = -1;
    }

    /// The first half of a tick: the mob knocks every 20 ticks (when the
    /// progress is a multiple of 20), then the progress grows by one.
    pub fn knock(&mut self) -> (knocks: bool)
        requires
            old(self).break_progress < u32::MAX,
        ensures
            knocks == (old(self).break_progress % 20 == 0),
            final(self).break_progress == old(self).break_progress + 1,
            final(self).last_break_progress == old(self).last_break_progress,
            final(self).door_interact == old(self).door_interact,
            final(self).door_break_time == old(self).door_break_time,
    {
        let knocks = self.break_progress % 20 == 0;
        self.break_progress = self.break_progress + 1;
        knocks
    }

    /// The second half of a tick, given the breaking stage of the new
    /// progress: a changed stage is shown and remembered, and on hard
    /// difficulty the door breaks once the progress reaches the breaking
    /// time.
    pub fn settle(&mut self, stage: i32, hard: bool) -> (r: BreakStep)
        ensures
            r.show_stage == (stage != old(self).last_break_progress),
            r.break_door == (old(self).break_progress >= old(self).door_break_time && hard),
            final(self).last_break_progress == stage,
            final(self).break_progress == old(self).break_progress,
            final(self).door_interact == old(self).door_interact,
            final(self).door_break_time == old(self).door_break_time,
    {
        let show_stage = stage != self.last_break_progress;
        if show_stage {
            self.last_break_progress = stage;
        }
        BreakStep { show_stage, break_door: self.break_progress >= self.door_break_time && hard }
    }
}

impl DoorInteractGoal {
    /// The goal as `new` builds it.
    pub open spec fn new_spec() -> DoorInteractGoal {
        DoorInteractGoal { door_pos: BlockPos { x: 0, y: 0, z: 0 }, has_door: false, passed: false }
    }
}

/// The other half of a door: below an upper half, above a lower one.
pub fn other_half(door: BlockPos, upper: bool) -> (r: BlockPos)
    requires
        inner_coord(door.y),
    ensures
        r == (if upper {
            BlockPos { y: (door.y - 1) as i32, ..door }
        } else {
            BlockPos { y: (door.y + 1) as i32, ..door }
        }),
{
    if upper {
        BlockPos { y: door.y - 1, ..door }
    } else {
        BlockPos { y: door.y + 1, ..door }
    }
}

} // verus!
