use vstd::prelude::*;

verus! {

/// Kind of animated sprite.
#[derive(Clone, Copy, Debug, PartialEq, Eq, Hash, Structural)]
pub enum Entity {
    Character,
    Monster,
}

/// What an animated sprite is doing; each state has its own tile sequence.
#[derive(Clone, Copy, Debug, PartialEq, Eq, Hash, Structural)]
pub enum State {
    Walking,
    Running,
}

/// Copies a tile sequence.
fn copy_tiles(tiles: &[u32]) -> (r: Vec<u32>)
    ensures
        r@ == tiles@,
{
    let mut r: Vec<u32> = Vec::new();
    let mut i: usize = 0;
    while i < tiles.len()
        invariant
            i <= tiles.len(),
            r@ == tiles@.subrange(0, i as int),
        decreases tiles.len() - i,
    {
        r.push(tiles[i]);
        i = i + 1;
    }
    assert(tiles@.subrange(0, tiles@.len() as int) =~= tiles@);
    r
}

/// Copies a tile sequence in reverse order.
fn reversed_tiles(tiles: &[u32]) -> (r: Vec<u32>)
    ensures
        r@ == tiles@.reverse(),
{
    let mut r: Vec<u32> = Vec::new();
    let mut i: usize = tiles.len();
    while i > 0
        invariant
            i <= tiles.len(),
            r@.len() == tiles@.len() - i,
            forall|k: int| 0 <= k < r@.len() ==> r@[k] == tiles@[tiles@.len() - 1 - k],
        decreases i,
    {
        i = i - 1;
        r.push(tiles[i]);
    }
    assert(r@ =~= tiles@.reverse());
    r
}

/// The tile sequence stored for each (entity, state) pair, where there is one.
pub struct AnimationTable {
    character_walking: Option<Vec<u32>>,
    character_running: Option<Vec<u32>>,
    monster_walking: Option<Vec<u32>>,
    monster_running: Option<Vec<u32>>,
}

/// The tiles held in a slot of the table, if the slot is filled.
pub open spec fn slot_tiles(slot: Option<Vec<u32>>) -> Option<Seq<u32>> {
    match slot {
        Some(v) => Some(v@),
        None => None,
    }
}

impl AnimationTable {
    /// Content of the slot that stores the tiles of `(entity, state)`.
    pub closed spec fn slot(&self, key: (Entity, State)) -> Option<Seq<u32>> {
        match key {
            (Entity::Character, State::Walking) => slot_tiles(self.character_walking),
            (Entity::Character, State::Running) => slot_tiles(self.character_running),
            (Entity::Monster, State::Walking) => slot_tiles(self.monster_walking),
            (Entity::Monster, State::Running) => slot_tiles(self.monster_running),
        }
    }
}

impl View for AnimationTable {
    type V = Map<(Entity, State), Seq<u32>>;

    closed spec fn view(&self) -> Map<(Entity, State), Seq<u32>> {
        Map::new(|k: (Entity, State)| self.slot(k) is Some, |k: (Entity, State)| self.slot(k).unwrap())
    }
}

impl AnimationTable {
    /// A table with no animation in it.
    pub fn new() -> (t: AnimationTable)
        ensures
            t@ == Map::<(Entity, State), Seq<u32>>::empty(),
    {
        let t = AnimationTable {
            character_walking: None,
            character_running: None,
            monster_walking: None,
            monster_running: None,
        };
        assert(t@ =~= Map::<(Entity, State), Seq<u32>>::empty());
        t
    }

    /// Stores `tiles` for `(entity, state)`, replacing what was there.
    fn store(&mut self, entity: Entity, state: State, tiles: Vec<u32>)
        ensures
            final(self)@ == old(self)@.insert((entity, state), tiles@),
    {
        match entity {
            Entity::Character => match state {
                State::Walking => { self.character_walking = Some(tiles); },
                State::Running => { self.character_running = Some(tiles); },
            },
            Entity::Monster => match state {
                State::Walking => { self.monster_walking = Some(tiles); },
                State::Running => { self.monster_running = Some(tiles); },
            },
        }
        assert(final(self)@ =~= old(self)@.insert((entity, state), tiles@));
    }

    /// Registers a looping animation: the tiles are kept in the given order.
    pub fn insert_animation(&mut self, entity: Entity, state: State, tiles: &[u32])
        ensures
            final(self)@ == old(self)@.insert((entity, state), tiles@),
    {
        let v = copy_tiles(tiles);
        self.store(entity, state, v);
    }

    /// Registers a transition: the tiles are stored in reverse order, since a
    /// transition is played by taking tiles off the end of its sequence.
    pub fn insert_transition(&mut self, entity: Entity, state: State, tiles: &[u32])
        ensures
            final(self)@ == old(self)@.insert((entity, state), tiles@.reverse()),
    {
        let v = reversed_tiles(tiles);
        self.store(entity, state, v);
    }

    /// The tiles stored for `(entity, state)`, if any.
    pub fn get(&self, entity: Entity, state: State) -> (r: Option<&Vec<u32>>)
        ensures
            r is Some <==> self@.contains_key((entity, state)),
            r matches Some(v) ==> v@ == self@[(entity, state)],
    {
        let r = match entity {
            Entity::Character => match state {
                State::Walking => self.character_walking.as_ref(),
                State::Running => self.character_running.as_ref(),
            },
            Entity::Monster => match state {
                State::Walking => self.monster_walking.as_ref(),
                State::Running => self.monster_running.as_ref(),
            },
        };
        r
    }

    /// The game's animations: the character walks with `walk` as a loop and
    /// enters running with `run` as a transition.
    pub fn game_animations(walk: &[u32], run: &[u32]) -> (t: AnimationTable)
        ensures
            t@ == Map::<(Entity, State), Seq<u32>>::empty().insert(
                (Entity::Character, State::Walking),
                walk@,
            ).insert((Entity::Character, State::Running), run@.reverse()),
    {
        let mut t = AnimationTable::new();
        t.insert_animation(Entity::Character, State::Walking, walk);
        t.insert_transition(Entity::Character, State::Running, run);
        t
    }
}

/// What an animated sprite shows and will show: its looping tiles with the
/// position in the loop, and the transition tiles still to play, which are
/// played from the end of the sequence before the loop goes on.
pub struct AnimatedView {
    pub entity: Entity,
    pub tile_index: nat,
    pub tiles: Seq<u32>,
    pub transition: Seq<u32>,
}

impl AnimatedView {
    /// The loop position lies inside the loop (and is 0 for an empty loop).
    pub open spec fn wf(self) -> bool {
        if self.tiles.len() > 0 {
            self.tile_index < self.tiles.len()
        } else {
            self.tile_index == 0
        }
    }

    /// There is a tile to show: a pending transition tile or a loop tile.
    pub open spec fn has_tile(self) -> bool {
        self.transition.len() > 0 || self.tiles.len() > 0
    }

    /// The tile shown now: the last pending transition tile, else the loop
    /// tile at the loop position.
    pub open spec fn current_tile(self) -> u32 {
        if self.transition.len() > 0 {
            self.transition.last()
        } else {
            self.tiles[self.tile_index as int]
        }
    }

    /// `frames` frames can elapse: either the loop has tiles, or the pending
    /// transition lasts at least that long.
    pub open spec fn can_advance(self, frames: nat) -> bool {
        self.tiles.len() > 0 || frames <= self.transition.len()
    }

    /// One frame later: a pending transition tile is dropped, else the loop
    /// moves to its next tile, wrapping around at the end.
    pub open spec fn step(self) -> AnimatedView {
        if self.transition.len() > 0 {
            AnimatedView {
                entity: self.entity,
                tile_index: self.tile_index,
                tiles: self.tiles,
                transition: self.transition.drop_last(),
            }
        } else {
            AnimatedView {
                entity: self.entity,
                tile_index: (self.tile_index + 1) % self.tiles.len(),
                tiles: self.tiles,
                transition: self.transition,
            }
        }
    }

    /// `frames` frames later.
    pub open spec fn advance(self, frames: nat) -> AnimatedView
        decreases frames,
    {
        if frames == 0 {
            self
        } else {
            self.advance((frames - 1) as nat).step()
        }
    }
}

/// An animated sprite: a looping tile sequence and a transition that plays
/// before the loop resumes.
pub struct Animated {
    entity: Entity,
    tile_index: usize,
    tiles: Vec<u32>,
    transition_tiles: Vec<u32>,
}

impl View for Animated {
    type V = AnimatedView;

    closed spec fn view(&self) -> AnimatedView {
        AnimatedView {
            entity: self.entity,
            tile_index: self.tile_index as nat,
            tiles: self.tiles@,
            transition: self.transition_tiles@,
        }
    }
}

impl Animated {
    /// The loop position lies inside the loop.
    pub open spec fn wf(&self) -> bool {
        self@.wf()
    }

    /// A sprite of `entity` playing the loop of `state` from its first tile,
    /// with no transition pending.
    pub fn new(table: &AnimationTable, entity: Entity, state: State) -> (a: Animated)
        requires
            table@.contains_key((entity, state)),
        ensures
            a.wf(),
            a@ == (AnimatedView {
                entity,
                tile_index: 0,
                tiles: table@[(entity, state)],
                transition: Seq::empty(),
            }),
    {
        let mut animated = Animated {
            entity,
            tile_index: 0,
            tiles: Vec::new(),
            transition_tiles: Vec::new(),
        };
        animated.set_state(table, state);
        animated
    }

    /// Switches the loop to the tiles of `state`, from its first tile. A
    /// pending transition is kept.
    pub fn set_state(&mut self, table: &AnimationTable, state: State)
        requires
            table@.contains_key((old(self)@.entity, state)),
        ensures
            final(self).wf(),
            final(self)@ == (AnimatedView {
                entity: old(self)@.entity,
                tile_index: 0,
                tiles: table@[(old(self)@.entity, state)],
                transition: old(self)@.transition,
            }),
    {
        let desc = table.get(self.entity, state).unwrap();
        self.tiles = copy_tiles(desc.as_slice());
        self.tile_index = 0;
    }

    /// Starts the transition stored for `state`, replacing any pending one.
    /// The loop and its position are kept.
    pub fn set_transition(&mut self, table: &AnimationTable, state: State)
        requires
            table@.contains_key((old(self)@.entity, state)),
        ensures
            final(self)@ == (AnimatedView {
                entity: old(self)@.entity,
                tile_index: old(self)@.tile_index,
                tiles: old(self)@.tiles,
                transition: table@[(old(self)@.entity, state)],
            }),
    {
        let desc = table.get(self.entity, state).unwrap();
        self.transition_tiles = copy_tiles(desc.as_slice());
    }

    /// The tile to draw now.
    pub fn tile(&self) -> (t: u32)
        requires
            self.wf(),
            self@.has_tile(),
        ensures
            t == self@.current_tile(),
    {
        let n = self.transition_tiles.len();
        if n > 0 {
            self.transition_tiles[n - 1]
        } else {
            self.tiles[self.tile_index]
        }
    }

    /// Whether there is a tile to draw now, that is, whether `tile` may be
    /// called.
    pub fn has_tile(&self) -> (r: bool)
        ensures
            r == self@.has_tile(),
    {
        self.transition_tiles.len() > 0 || self.tiles.len() > 0
    }

    /// Whether `frames` frames can elapse, that is, whether `update(frames)`
    /// may be called: the loop has tiles, or the pending transition lasts at
    /// least that long.
    pub fn can_advance(&self, frames: u64) -> (r: bool)
        ensures
            r == self@.can_advance(frames as nat),
    {
        self.tiles.len() > 0 || frames <= self.transition_tiles.len() as u64
    }

    /// Moves one frame on.
    fn next_frame(&mut self)
        requires
            old(self).wf(),
            old(self)@.can_advance(1),
        ensures
            final(self).wf(),
            final(self)@ == old(self)@.step(),
    {
        if self.transition_tiles.len() > 0 {
            self.transition_tiles.pop();
        } else {
            let len = self.tiles.len();
            let next = self.tile_index + 1;
            self.tile_index = next % len;
        }
    }

    /// Moves `frames` frames on.
    pub fn update(&mut self, frames: u64)
        requires
            old(self).wf(),
            old(self)@.can_advance(frames as nat),
        ensures
            final(self).wf(),
            final(self)@ == old(self)@.advance(frames as nat),
    {
        let ghost start = self@;
        let mut n: u64 = 0;
        while n < frames
            invariant
                n <= frames,
                start.wf(),
                start.can_advance(frames as nat),
                self.wf(),
                self@ == start.advance(n as nat),
            decreases frames - n,
        {
            proof {
                lemma_advance_shape(start, n as nat);
            }
            self.next_frame();
            n = n + 1;
        }
    }
}

/// Time never changes the sprite's entity or loop tiles; the transition is
/// consumed from its end, one tile per frame; the loop position stays inside
/// the loop.
pub proof fn lemma_advance_shape(v: AnimatedView, frames: nat)
    requires
        v.wf(),
        v.can_advance(frames),
    ensures
        v.advance(frames).wf(),
        v.advance(frames).entity == v.entity,
        v.advance(frames).tiles == v.tiles,
        frames <= v.transition.len() ==> v.advance(frames).tile_index == v.tile_index,
        frames <= v.transition.len() ==> v.advance(frames).transition == v.transition.subrange(
            0,
            v.transition.len() - frames,
        ),
        frames > v.transition.len() ==> v.advance(frames).transition.len() == 0,
    decreases frames,
{
    if frames > 0 {
        let f = (frames - 1) as nat;
        lemma_advance_shape(v, f);
        let p = v.advance(f);
        if f < v.transition.len() {
            assert(p.transition.drop_last() =~= v.transition.subrange(0, v.transition.len() - frames));
        }
    }
}

/// Elapsed time adds up: `a` frames followed by `b` frames are `a + b` frames.
pub proof fn lemma_advance_add(v: AnimatedView, a: nat, b: nat)
    ensures
        v.advance(a).advance(b) == v.advance(a + b),
    decreases b,
{
    if b > 0 {
        lemma_advance_add(v, a, (b - 1) as nat);
        assert((a + b - 1) as nat == a + (b - 1) as nat);
    }
}

/// A pending transition plays first, from the last tile of its sequence to
/// the first, one tile per frame, while the loop stays where it was.
pub proof fn lemma_transition_plays_first(v: AnimatedView, k: nat)
    requires
        v.wf(),
        k < v.transition.len(),
    ensures
        v.advance(k).current_tile() == v.transition[v.transition.len() - 1 - k],
        v.advance(k).tile_index == v.tile_index,
{
    lemma_advance_shape(v, k);
}

/// Once the transition has played out, the loop resumes exactly where it
/// stood when the transition started.
pub proof fn lemma_transition_then_loop(v: AnimatedView)
    requires
        v.wf(),
    ensures
        v.advance(v.transition.len()) == (AnimatedView {
            entity: v.entity,
            tile_index: v.tile_index,
            tiles: v.tiles,
            transition: Seq::empty(),
        }),
{
    lemma_advance_shape(v, v.transition.len());
    assert(v.advance(v.transition.len()).transition =~= Seq::<u32>::empty());
}

/// A transition registered with `insert_transition(.., tiles)` shows
/// `tiles` in their given order: the `k`-th frame shows `tiles[k]`.
pub proof fn lemma_transition_plays_in_order(v: AnimatedView, tiles: Seq<u32>, k: nat)
    requires
        v.wf(),
        v.transition == tiles.reverse(),
        k < tiles.len(),
    ensures
        v.advance(k).current_tile() == tiles[k as int],
{
    lemma_transition_plays_first(v, k);
}

/// With no transition pending, the loop shows its tiles in order, wrapping
/// around: after `k` frames the loop position has moved `k` places.
pub proof fn lemma_loop_position(v: AnimatedView, k: nat)
    requires
        v.wf(),
        v.transition.len() == 0,
        v.tiles.len() > 0,
    ensures
        v.advance(k).transition.len() == 0,
        v.advance(k).tile_index == (v.tile_index + k) % v.tiles.len(),
        v.advance(k).current_tile() == v.tiles[((v.tile_index + k) % v.tiles.len()) as int],
    decreases k,
{
    lemma_advance_shape(v, k);
    let n = v.tiles.len();
    if k == 0 {
        vstd::arithmetic::div_mod::lemma_small_mod(v.tile_index, n);
    } else {
        let f = (k - 1) as nat;
        lemma_loop_position(v, f);
        let p = v.advance(f);
        assert(v.advance(k) == p.step());
        assert(p.tile_index == (v.tile_index + f) % n);
        vstd::arithmetic::div_mod::lemma_add_mod_noop_right(
            1,
            (v.tile_index + f) as int,
            n as int,
        );
        assert(p.step().tile_index == (p.tile_index + 1) % n);
        assert(1 + (v.tile_index + f) == v.tile_index + k);
        assert(v.advance(k).tile_index == (v.tile_index + k) % n);
    }
}

/// With no transition pending, the loop comes back to the same frame after
/// as many frames as it has tiles.
pub proof fn lemma_loop_period(v: AnimatedView)
    requires
        v.wf(),
        v.transition.len() == 0,
        v.tiles.len() > 0,
    ensures
        v.advance(v.tiles.len()) == v,
{
    lemma_loop_position(v, v.tiles.len());
    lemma_advance_shape(v, v.tiles.len());
    vstd::arithmetic::div_mod::lemma_mod_add_multiples_vanish(v.tile_index as int, v.tiles.len() as int);
    vstd::arithmetic::div_mod::lemma_small_mod(v.tile_index, v.tiles.len());
    assert(v.advance(v.tiles.len()).transition =~= v.transition);
}

/// `update` may be called for any number of frames whenever the loop has
/// tiles, whatever transition is pending; with an empty loop, exactly as many
/// frames as the pending transition lasts.
pub proof fn lemma_update_allowed(v: AnimatedView, frames: nat)
    ensures
        v.tiles.len() > 0 ==> v.can_advance(frames),
        v.tiles.len() == 0 ==> (v.can_advance(frames) <==> frames <= v.transition.len()),
{
}

/// `tile` may be called exactly when a transition tile is pending or the
/// loop has tiles; with no transition pending it shows the loop tile at the
/// loop position, whatever that position is.
pub proof fn lemma_tile_allowed(v: AnimatedView)
    ensures
        v.has_tile() <==> (v.transition.len() > 0 || v.tiles.len() > 0),
        v.wf() && v.transition.len() == 0 && v.tiles.len() > 0 ==> v.has_tile()
            && v.tile_index < v.tiles.len() && v.current_tile() == v.tiles[v.tile_index as int],
        v.transition.len() > 0 ==> v.current_tile() == v.transition[v.transition.len() - 1],
{
}

/// When more frames elapse than the pending transition lasts, the whole
/// transition plays and every remaining frame moves the loop on one place:
/// after `k` frames the loop has moved `k - transition.len()` places from
/// where it stood.
pub proof fn lemma_advance_past_transition(v: AnimatedView, k: nat)
    requires
        v.wf(),
        v.tiles.len() > 0,
        k >= v.transition.len(),
    ensures
        v.can_advance(k),
        v.advance(k).transition.len() == 0,
        v.advance(k).tiles == v.tiles,
        v.advance(k).tile_index == (v.tile_index + (k - v.transition.len()) as nat) % v.tiles.len(),
        v.advance(k).current_tile() == v.tiles[((v.tile_index + (k - v.transition.len()) as nat)
            % v.tiles.len()) as int],
{
    let t = v.transition.len();
    let r = (k - t) as nat;
    lemma_advance_add(v, t, r);
    lemma_transition_then_loop(v);
    let w = v.advance(t);
    lemma_loop_position(w, r);
    lemma_advance_shape(v, k);
    assert(t + r == k);
}

} // verus!
