use vstd::prelude::*;

use crate::frame::TRANSPARENT;
use crate::frame::argb_u32;
use crate::frame::blit_prefix;
use crate::frame::blit_spec;
use crate::frame::frame_argb;
use crate::frame::mirrored;
use crate::frame::turn;
use crate::frame::zero_last;
use crate::history::InputHistory;
use crate::history::KeyCount;
use crate::history::mark_miss_spec;
use crate::history::null_run;
use crate::history::record_all;
use crate::keymap::KeyMap;
use crate::keymap::KEY_Q;
use crate::keymap::filter_spec;
use crate::keymap::in_layout;
use vstd::arithmetic::div_mod::lemma_div_multiples_vanish;
use vstd::arithmetic::div_mod::lemma_fundamental_div_mod;
use vstd::arithmetic::div_mod::lemma_fundamental_div_mod_converse;

verus! {

/// How far a character travels per tick while walking, in pixels.
pub const WALK_STEP: u32 = 4;

/// How far a character travels per tick while running, in pixels.
pub const RUN_STEP: u32 = 4 * 4;

/// The travel bound: a character's horizontal offset never passes it.
pub const TRACK_WIDTH: u32 = 200 * 2;

/// How many ticks may pass since the last reset before the state machine
/// decays back to Stop.
pub const TIMEOUT_TICKS: u32 = 24;

/// One loaded animation: the frames of a single movement, facing right
/// and facing left, with the frame width for row-stride blitting.
#[derive(Debug, Clone)]
pub struct Packet {
    pub tag: Movement,
    pub right: Vec<Vec<u32>>,
    pub left: Vec<Vec<u32>>,
    pub width: u32,
}

/// A fighter's hit regions, one block per body part.
#[derive(Debug)]
#[allow(dead_code)]
pub struct PlayerBlock {
    block_body: Block,
    block_head: Block,
    block_hand: Block,
    block_leg: Block,
}

/// A display buffer together with its dimensions.
pub struct Buffer {
    pub data: Vec<u32>,
    pub width: u32,
    pub height: u32,
}

/// A group of frames with a cursor into them.
#[derive(Debug)]
#[allow(dead_code)]
pub struct FramesInfo {
    data: Vec<Vec<u32>>,
    frame: u32,
    frame_group: u32,
}

/// A position on the screen.
#[derive(Debug)]
#[allow(dead_code)]
pub struct Offset {
    x: u32,
    y: u32,
}

/// A rectangular region, kept by its corner coordinates.
#[derive(Debug, Clone, Copy, PartialEq, Eq, Structural)]
pub struct Block {
    pub x1: u32,
    pub x2: u32,
    pub y1: u32,
    pub y2: u32,
}

/// How many ticks pass between two animation frames.
#[derive(Debug, Clone, Copy, PartialEq, Eq, Structural)]
pub enum Speed {
    Stop,
    VeryFast,
    Fast,
    Norminal,
    Slow,
    VerySlow,
}

/// Extra, unused status of a player.
#[derive(Debug, Clone)]
pub enum Status {
    Null,
}

/// The movement half of a player's state machine state.
#[derive(Debug, PartialEq, Eq, Clone, Copy, Structural)]
pub enum Movement {
    Stop,
    Walk,
    Run,
}

/// A direction; `Left` and `Right` double as the facing of a character.
#[derive(Debug, Clone, Copy, PartialEq, Eq, Structural)]
pub enum Dire {
    Up,
    Down,
    Left,
    Right,
    Unknown,
}

/// The animation-speed constant behind each `Speed` name.
pub open spec fn speed_ticks(s: Speed) -> u8 {
    match s {
        Speed::Stop => 0,
        Speed::VeryFast => 1,
        Speed::Fast => 3,
        Speed::Norminal => 6,
        Speed::Slow => 12,
        Speed::VerySlow => 24,
    }
}

impl Speed {
    /// The number of ticks this speed keeps one animation frame on screen.
    pub fn ticks(&self) -> (r: u8)
        ensures
            r == speed_ticks(*self),
    {
        match *self {
            Speed::Stop => 0,
            Speed::VeryFast => 1,
            Speed::Fast => 3,
            Speed::Norminal => 6,
            Speed::Slow => 12,
            Speed::VerySlow => 24,
        }
    }
}

/// Where each movement's animation sits in a player's loaded stream.
pub open spec fn movement_index(m: Movement) -> int {
    match m {
        Movement::Stop => 0,
        Movement::Walk => 1,
        Movement::Run => 2,
    }
}

/// The movement that an animation name denotes; names other than the
/// three known ones denote nothing.
pub open spec fn movement_of_name(s: Seq<char>) -> Movement {
    if s == "stop"@ {
        Movement::Stop
    } else if s == "walk"@ {
        Movement::Walk
    } else {
        Movement::Run
    }
}

/// Relies on `str`'s `PartialEq`: two string slices compare equal exactly
/// when they hold the same sequence of characters.
#[verifier::external_body]
fn str_eq(a: &str, b: &str) -> (r: bool)
    ensures
        r == (a@ == b@),
{
    a == b
}

impl Movement {
    /// The index of this movement's animation in a player's stream.
    pub fn index(&self) -> (r: usize)
        ensures
            r as int == movement_index(*self),
    {
        match *self {
            Movement::Stop => 0,
            Movement::Walk => 1,
            Movement::Run => 2,
        }
    }

    /// The movement that one of the three animation names denotes.
    pub fn from_name(s: &str) -> (r: Movement)
        requires
            s@ == "stop"@ || s@ == "walk"@ || s@ == "run"@,
        ensures
            r == movement_of_name(s@),
    {
        if str_eq(s, "stop") {
            Movement::Stop
        } else if str_eq(s, "walk") {
            Movement::Walk
        } else {
            Movement::Run
        }
    }
}

impl Default for Movement {
    fn default() -> (r: Self)
        ensures
            r == Movement::Stop,
    {
        Movement::Stop
    }
}

/// One fighter: its loaded animations, state machine state, input
/// history, timers and position.
#[derive(Debug, Clone)]
pub struct Player {
    pub stream: Vec<Packet>,
    pub ptr_frame: usize,
    pub ptr_packet: usize,
    pub hp: u32,
    pub ep: u32,
    pub block_body: Block,
    pub block_head: Block,
    pub block_hand: Block,
    pub block_leg: Block,
    pub x_offset: u32,
    pub y_offset: u32,
    pub movement: Movement,
    pub status: Status,
    pub speed: Speed,
    pub frame_timer: u8,
    pub timer: u32,
    pub dire: Dire,
    pub is_p1: bool,
    pub key_list: InputHistory,
}

/// The fields of a player that the per-tick key handling never touches:
/// the loaded assets, the hit blocks and the fixed per-player setup.
pub open spec fn same_rig(a: Player, b: Player) -> bool {
    &&& a.stream == b.stream
    &&& a.ptr_packet == b.ptr_packet
    &&& a.hp == b.hp
    &&& a.ep == b.ep
    &&& a.block_body == b.block_body
    &&& a.block_head == b.block_head
    &&& a.block_hand == b.block_hand
    &&& a.block_leg == b.block_leg
    &&& a.y_offset == b.y_offset
    &&& a.status == b.status
    &&& a.speed == b.speed
    &&& a.is_p1 == b.is_p1
}

/// A step of the given size applied to a horizontal offset, facing the
/// given way: the offset moves only while the whole step stays inside
/// `[0, TRACK_WIDTH]`, and only the facings `Left` and `Right` move at all.
pub open spec fn stepped(d: Dire, x: u32, step: u32) -> u32 {
    if d == Dire::Right {
        if x + step >= TRACK_WIDTH {
            x
        } else {
            (x + step) as u32
        }
    } else if d == Dire::Left {
        if x >= step {
            (x - step) as u32
        } else {
            x
        }
    } else {
        x
    }
}

/// The per-tick displacement of each movement.
pub open spec fn step_of(m: Movement) -> u32 {
    match m {
        Movement::Stop => 0,
        Movement::Walk => WALK_STEP,
        Movement::Run => RUN_STEP,
    }
}

/// PositionIntegrator: where one tick moves a character standing at `x`.
pub open spec fn advance_spec(m: Movement, d: Dire, x: u32) -> u32 {
    stepped(d, x, step_of(m))
}

/// Law: the position integrator keeps the horizontal offset inside the
/// track, however many ticks of any movement are applied in a row.
pub proof fn lemma_position_bound(m: Movement, d: Dire, x: u32)
    requires
        x <= TRACK_WIDTH,
    ensures
        advance_spec(m, d, x) <= TRACK_WIDTH,
{
}

/// The double-tap gesture at the tail of the history: the same direction
/// twice with exactly one sampled miss in between, in a history of at
/// least four runs.
pub open spec fn double_tap_dir(h: Seq<KeyCount>) -> Option<Dire> {
    if h.len() >= 4 && h[h.len() - 3].key == KeyMap::Left && h[h.len() - 2].key == KeyMap::Unknown
        && h[h.len() - 1].key == KeyMap::Left {
        Some(Dire::Left)
    } else if h.len() >= 4 && h[h.len() - 3].key == KeyMap::Right && h[h.len() - 2].key
        == KeyMap::Unknown && h[h.len() - 1].key == KeyMap::Right {
        Some(Dire::Right)
    } else {
        None
    }
}

/// The walk-start pattern: a history that begins with its null run and
/// then a directional press.
pub open spec fn walk_start_dir(h: Seq<KeyCount>) -> Option<Dire> {
    if h.len() >= 2 && h[0].key == KeyMap::Unknown && h[1].key == KeyMap::Left {
        Some(Dire::Left)
    } else if h.len() >= 2 && h[0].key == KeyMap::Unknown && h[1].key == KeyMap::Right {
        Some(Dire::Right)
    } else {
        None
    }
}

/// The pattern step of one tick: what the movement and facing become, and
/// whether a transition fired (which also rewinds the animation).
pub open spec fn pattern_spec(m: Movement, d: Dire, h: Seq<KeyCount>) -> (Movement, Dire, bool) {
    if m == Movement::Walk {
        match double_tap_dir(h) {
            Some(dd) => (Movement::Run, dd, true),
            None => (m, d, false),
        }
    } else if m == Movement::Stop {
        match walk_start_dir(h) {
            Some(dd) => (Movement::Walk, dd, true),
            None => (m, d, false),
        }
    } else {
        (m, d, false)
    }
}

/// Law: in the Walk state a history of at least four runs that ends in
/// the same direction twice around one miss escalates to Run in that
/// direction; without the middle miss no transition fires, however the
/// directions repeat.
pub proof fn lemma_double_tap(d: Dire, h: Seq<KeyCount>)
    requires
        h.len() >= 4,
    ensures
        (h[h.len() - 3].key == KeyMap::Right && h[h.len() - 2].key == KeyMap::Unknown && h[h.len()
            - 1].key == KeyMap::Right) ==> pattern_spec(Movement::Walk, d, h) == (
        Movement::Run,
        Dire::Right,
        true,
        ),
        (h[h.len() - 3].key == KeyMap::Left && h[h.len() - 2].key == KeyMap::Unknown && h[h.len()
            - 1].key == KeyMap::Left) ==> pattern_spec(Movement::Walk, d, h) == (
        Movement::Run,
        Dire::Left,
        true,
        ),
        h[h.len() - 2].key != KeyMap::Unknown ==> pattern_spec(Movement::Walk, d, h) == (
        Movement::Walk,
        d,
        false,
        ),
{
}

/// Whether the tick's classified key set still asserts the facing
/// direction.
pub open spec fn holding_facing(mapped: Seq<KeyMap>, d: Dire) -> bool {
    ||| (d == Dire::Left && mapped.contains(KeyMap::Left))
    ||| (d == Dire::Right && mapped.contains(KeyMap::Right))
}

/// The quit gesture: the raw key set holds exactly the quit key.
pub open spec fn quit_spec(keys: Seq<u32>) -> bool {
    keys.len() == 1 && keys[0] == KEY_Q
}

/// Whether a player's animation cursor points at a loaded frame of the
/// current movement, facing the current way.
pub open spec fn frames_ok(p: Player) -> bool {
    &&& movement_index(p.movement) < p.stream@.len()
    &&& (p.dire == Dire::Left ==> (p.ptr_frame as int) < p.stream@[movement_index(
        p.movement,
    )].left@.len())
    &&& (p.dire != Dire::Left ==> (p.ptr_frame as int) < p.stream@[movement_index(
        p.movement,
    )].right@.len())
}

/// FrameSelector: the pixels that the player shows this tick.
pub open spec fn current_frame(p: Player) -> Seq<u32>
    recommends
        frames_ok(p),
{
    if p.dire == Dire::Left {
        p.stream@[movement_index(p.movement)].left@[p.ptr_frame as int]@
    } else {
        p.stream@[movement_index(p.movement)].right@[p.ptr_frame as int]@
    }
}

/// A fresh vector with the same contents.
fn copy_vec<T: Copy>(src: &Vec<T>) -> (r: Vec<T>)
    ensures
        r@ == src@,
{
    let mut out: Vec<T> = Vec::with_capacity(src.len());
    let mut i: usize = 0;
    while i < src.len()
        invariant
            i <= src@.len(),
            out@.len() == i,
            forall|j: int| 0 <= j < i ==> out@[j] == src@[j],
        decreases src@.len() - i,
    {
        out.push(src[i]);
        i += 1;
    }
    proof {
        assert(out@ =~= src@);
    }
    out
}

/// Whether a vector of classified keys holds the given action.
fn contains_action(v: &Vec<KeyMap>, a: KeyMap) -> (r: bool)
    ensures
        r == v@.contains(a),
{
    let mut i: usize = 0;
    while i < v.len()
        invariant
            i <= v@.len(),
            forall|j: int| 0 <= j < i ==> v@[j] != a,
        decreases v@.len() - i,
    {
        if v[i] == a {
            return true;
        }
        i += 1;
    }
    false
}

impl Player {
    pub fn new(dire: Dire, is_p1: bool) -> (r: Self)
        ensures
            r.timer == 0,
            r.ptr_frame == 0,
            r.ptr_packet == 0,
            r.stream@.len() == 0,
            r.hp == 1000,
            r.ep == 100,
            r.block_body == (Block { x1: 0, x2: 100, y1: 0, y2: 100 }),
            r.block_head == (Block { x1: 10, x2: 20, y1: 10, y2: 20 }),
            r.block_hand == (Block { x1: 10, x2: 20, y1: 10, y2: 20 }),
            r.block_leg == (Block { x1: 10, x2: 20, y1: 10, y2: 20 }),
            r.x_offset == 0,
            r.y_offset == 0,
            r.movement == Movement::Stop,
            r.status == Status::Null,
            r.speed == Speed::Norminal,
            r.frame_timer == speed_ticks(Speed::Norminal),
            r.dire == dire,
            r.is_p1 == is_p1,
            r.key_list@ =~= seq![null_run()],
    {
        let speed = Speed::Norminal;
        Self {
            timer: 0,
            ptr_frame: 0,
            ptr_packet: 0,
            stream: Vec::new(),
            hp: 1000,
            ep: 100,
            block_body: Block::new(0, 0, 100, 100),
            block_head: Block::new(10, 10, 10, 10),
            block_hand: Block::new(10, 10, 10, 10),
            block_leg: Block::new(10, 10, 10, 10),
            x_offset: 0,
            y_offset: 0,
            movement: Movement::default(),
            status: Status::Null,
            speed,
            frame_timer: speed.ticks(),
            dire,
            is_p1,
            key_list: InputHistory::new(),
        }
    }

    /// Jumps the state machine to the given movement and rewinds the
    /// animation to its first frame.
    pub fn switch_to(&mut self, movement: Movement)
        ensures
            same_rig(*old(self), *final(self)),
            final(self).movement == movement,
            final(self).ptr_frame == 0,
            final(self).dire == old(self).dire,
            final(self).x_offset == old(self).x_offset,
            final(self).timer == old(self).timer,
            final(self).frame_timer == old(self).frame_timer,
            final(self).key_list == old(self).key_list,
    {
        self.movement = movement;
        self.ptr_frame = 0;
    }

    /// Collision checking is not wired up yet: the move is always allowed
    /// and nothing changes.
    pub fn try_move(&mut self, _block_checker: &Dire)
        ensures
            *final(self) == *old(self),
    {
    }

    /// One walking step in the current facing direction.
    pub fn move_walk(&mut self)
        ensures
            same_rig(*old(self), *final(self)),
            final(self).x_offset == stepped(old(self).dire, old(self).x_offset, WALK_STEP),
            final(self).movement == old(self).movement,
            final(self).dire == old(self).dire,
            final(self).ptr_frame == old(self).ptr_frame,
            final(self).timer == old(self).timer,
            final(self).frame_timer == old(self).frame_timer,
            final(self).key_list == old(self).key_list,
    {
        if self.dire == Dire::Right {
            if self.x_offset >= TRACK_WIDTH - WALK_STEP {
                // the track ends here
            } else {
                self.x_offset += WALK_STEP;
            }
        } else if self.dire == Dire::Left {
            if self.x_offset >= WALK_STEP {
                self.x_offset -= WALK_STEP;
            }
        }
    }

    /// One running step in the current facing direction.
    pub fn move_run(&mut self)
        ensures
            same_rig(*old(self), *final(self)),
            final(self).x_offset == stepped(old(self).dire, old(self).x_offset, RUN_STEP),
            final(self).movement == old(self).movement,
            final(self).dire == old(self).dire,
            final(self).ptr_frame == old(self).ptr_frame,
            final(self).timer == old(self).timer,
            final(self).frame_timer == old(self).frame_timer,
            final(self).key_list == old(self).key_list,
    {
        if self.dire == Dire::Right {
            if self.x_offset >= TRACK_WIDTH - RUN_STEP {
                // the track ends here
            } else {
                self.x_offset += RUN_STEP;
            }
        } else if self.dire == Dire::Left {
            if self.x_offset >= RUN_STEP {
                self.x_offset -= RUN_STEP;
            }
        }
    }

    pub fn move_up(&mut self)
        ensures
            *final(self) == *old(self),
    {
    }

    pub fn move_down(&mut self)
        ensures
            *final(self) == *old(self),
    {
    }

    /// Whether the decay timer has reached its threshold.
    pub fn timeout(&self) -> (r: bool)
        ensures
            r == (self.timer >= TIMEOUT_TICKS),
    {
        self.timer >= TIMEOUT_TICKS
    }

    /// InputHistory feed: records the tick's classified actions in order.
    pub fn keys_from(&mut self, keys: &Vec<KeyMap>)
        requires
            old(self).key_list@.len() >= 1,
        ensures
            same_rig(*old(self), *final(self)),
            final(self).key_list@ == record_all(
                old(self).key_list@,
                old(self).movement == Movement::Walk,
                keys@,
            ),
            final(self).key_list@.len() >= 1,
            final(self).movement == old(self).movement,
            final(self).dire == old(self).dire,
            final(self).ptr_frame == old(self).ptr_frame,
            final(self).x_offset == old(self).x_offset,
            final(self).timer == old(self).timer,
            final(self).frame_timer == old(self).frame_timer,
    {
        let in_walk = self.movement == Movement::Walk;
        let ghost target = record_all(self.key_list@, in_walk, keys@);
        proof {
            assert(keys@.skip(0) =~= keys@);
        }
        let mut i: usize = 0;
        while i < keys.len()
            invariant
                self.key_list@.len() >= 1,
                i <= keys@.len(),
                record_all(self.key_list@, in_walk, keys@.skip(i as int)) == target,
                same_rig(*old(self), *self),
                self.movement == old(self).movement,
                self.dire == old(self).dire,
                self.ptr_frame == old(self).ptr_frame,
                self.x_offset == old(self).x_offset,
                self.timer == old(self).timer,
                self.frame_timer == old(self).frame_timer,
            decreases keys@.len() - i,
        {
            proof {
                assert(keys@.skip(i as int)[0] == keys@[i as int]);
                assert(keys@.skip(i as int).skip(1) =~= keys@.skip(i as int + 1));
            }
            self.key_list.record(keys[i], in_walk);
            i += 1;
        }
        proof {
            assert(keys@.skip(keys@.len() as int) =~= Seq::<KeyMap>::empty());
        }
    }

    /// KeyClassifier gate: appends to `res` the logical actions of the raw
    /// codes that this player's layout admits, in order.
    pub fn filter(&self, res: &mut Vec<KeyMap>, keys: &Vec<u32>)
        ensures
            final(res)@ == old(res)@ + filter_spec(keys@, self.is_p1),
    {
        let ghost base = res@;
        let mut i: usize = 0;
        while i < keys.len()
            invariant
                i <= keys@.len(),
                res@ == base + filter_spec(keys@.take(i as int), self.is_p1),
            decreases keys@.len() - i,
        {
            let code = keys[i];
            let admitted = if self.is_p1 {
                10 <= code && code <= 35
            } else {
                code <= 9 || (51 <= code && code <= 54)
            };
            proof {
                assert(admitted == in_layout(code, self.is_p1));
                assert(keys@.take(i as int + 1).drop_last() =~= keys@.take(i as int));
                assert(keys@.take(i as int + 1).last() == keys@[i as int]);
            }
            if admitted {
                res.push(KeyMap::from_code(code));
            }
            i += 1;
        }
        proof {
            assert(keys@.take(keys@.len() as int) =~= keys@);
        }
    }

    /// The quit-gesture check. It takes the player by shared reference, so
    /// checking any key set — quit gesture or not — never alters the
    /// player's state.
    pub fn check_keys_misc(&self, keys: &Vec<u32>) -> (quit: bool)
        ensures
            quit == quit_spec(keys@),
    {
        keys.len() == 1 && keys[0] == KEY_Q
    }

    /// MovementStateMachine pattern step: matches the input history
    /// against the walk-start and double-tap gestures and fires the
    /// corresponding transition, if any.
    pub fn inner_check_keys(&mut self)
        ensures
            same_rig(*old(self), *final(self)),
            final(self).movement == pattern_spec(
                old(self).movement,
                old(self).dire,
                old(self).key_list@,
            ).0,
            final(self).dire == pattern_spec(
                old(self).movement,
                old(self).dire,
                old(self).key_list@,
            ).1,
            final(self).ptr_frame == (if pattern_spec(
                old(self).movement,
                old(self).dire,
                old(self).key_list@,
            ).2 {
                0
            } else {
                old(self).ptr_frame
            }),
            final(self).key_list == old(self).key_list,
            final(self).x_offset == old(self).x_offset,
            final(self).timer == old(self).timer,
            final(self).frame_timer == old(self).frame_timer,
    {
        let n = self.key_list.len();
        if self.movement == Movement::Walk && n >= 4 {
            let first = *self.key_list.get(n - 3);
            let second = *self.key_list.get(n - 2);
            let third = *self.key_list.get(n - 1);
            if first.matched(&KeyCount::new(KeyMap::Left, 0, 0)) && second.matched(
                &KeyCount::new(KeyMap::Unknown, 0, 0),
            ) && third.matched(&KeyCount::new(KeyMap::Left, 0, 0)) {
                self.dire = Dire::Left;
                self.switch_to(Movement::Run);
            } else if first.matched(&KeyCount::new(KeyMap::Right, 0, 0)) && second.matched(
                &KeyCount::new(KeyMap::Unknown, 0, 0),
            ) && third.matched(&KeyCount::new(KeyMap::Right, 0, 0)) {
                self.dire = Dire::Right;
                self.switch_to(Movement::Run);
            }
        } else if self.movement == Movement::Stop && n >= 2 {
            let head = *self.key_list.get(0);
            let second = *self.key_list.get(1);
            if head.matched(&KeyCount::new(KeyMap::Unknown, 0, 0)) {
                if second.matched(&KeyCount::new(KeyMap::Left, 0, 0)) {
                    self.dire = Dire::Left;
                    self.switch_to(Movement::Walk);
                } else if second.matched(&KeyCount::new(KeyMap::Right, 0, 0)) {
                    self.dire = Dire::Right;
                    self.switch_to(Movement::Walk);
                }
            }
        }
    }

    /// PositionIntegrator dispatch: applies the current movement's step.
    pub fn move_to(&mut self)
        ensures
            same_rig(*old(self), *final(self)),
            final(self).x_offset == advance_spec(
                old(self).movement,
                old(self).dire,
                old(self).x_offset,
            ),
            old(self).x_offset <= TRACK_WIDTH ==> final(self).x_offset <= TRACK_WIDTH,
            final(self).movement == old(self).movement,
            final(self).dire == old(self).dire,
            final(self).ptr_frame == old(self).ptr_frame,
            final(self).timer == old(self).timer,
            final(self).frame_timer == old(self).frame_timer,
            final(self).key_list == old(self).key_list,
    {
        match self.movement {
            Movement::Walk => {
                self.move_walk();
            },
            Movement::Run => {
                self.move_run();
            },
            _ => {},
        }
    }

    /// MovementStateMachine tick: classifies the tick's raw key codes,
    /// records them, fires pattern transitions, moves the character and
    /// applies the timeout decay. Returns whether the quit gesture was
    /// seen; on the quit gesture nothing else happens.
    pub fn check_keys(&mut self, keys: &Vec<u32>) -> (quit: bool)
        requires
            old(self).key_list@.len() >= 1,
            old(self).timer < u32::MAX,
        ensures
            quit == quit_spec(keys@),
            quit ==> *final(self) == *old(self),
            !quit ==> ({
                let mapped = filter_spec(keys@, old(self).is_p1);
                let h1 = record_all(
                    old(self).key_list@,
                    old(self).movement == Movement::Walk,
                    mapped,
                );
                let pat = pattern_spec(old(self).movement, old(self).dire, h1);
                let holding = holding_facing(mapped, pat.1);
                let h2 = if holding {
                    h1
                } else {
                    mark_miss_spec(h1)
                };
                let reset = old(self).timer >= TIMEOUT_TICKS && !((pat.0 == Movement::Walk
                    || pat.0 == Movement::Run) && holding);
                &&& same_rig(*old(self), *final(self))
                &&& final(self).movement == (if reset {
                    Movement::Stop
                } else {
                    pat.0
                })
                &&& final(self).dire == pat.1
                &&& final(self).key_list@ == (if reset {
                    seq![null_run()]
                } else {
                    h2
                })
                &&& final(self).timer == (if reset {
                    0
                } else {
                    old(self).timer + 1
                })
                &&& final(self).x_offset == advance_spec(pat.0, pat.1, old(self).x_offset)
                &&& final(self).ptr_frame == (if reset || pat.2 {
                    0
                } else {
                    old(self).ptr_frame
                })
                &&& final(self).frame_timer == old(self).frame_timer
            }),
            // the timeout law: past the threshold, a tick whose classified
            // keys no longer assert the facing direction decays to Stop
            // with the timer and the history reset
            (!quit_spec(keys@) && old(self).timer >= TIMEOUT_TICKS && !holding_facing(
                filter_spec(keys@, old(self).is_p1),
                pattern_spec(
                    old(self).movement,
                    old(self).dire,
                    record_all(
                        old(self).key_list@,
                        old(self).movement == Movement::Walk,
                        filter_spec(keys@, old(self).is_p1),
                    ),
                ).1,
            )) ==> final(self).movement == Movement::Stop && final(self).timer == 0
                && final(self).key_list@ == seq![null_run()],
            // the position bound: a tick never pushes a character off the
            // track
            (!quit_spec(keys@) && old(self).x_offset <= TRACK_WIDTH) ==> final(self).x_offset
                <= TRACK_WIDTH,
            final(self).key_list@.len() >= 1,
    {
        if self.check_keys_misc(keys) {
            return true;
        }
        let mut mapped: Vec<KeyMap> = Vec::with_capacity(keys.len());
        self.filter(&mut mapped, keys);
        self.keys_from(&mapped);
        self.inner_check_keys();
        let holding = match self.dire {
            Dire::Left => contains_action(&mapped, KeyMap::Left),
            Dire::Right => contains_action(&mapped, KeyMap::Right),
            _ => false,
        };
        if !holding {
            self.key_list.mark_miss();
        }
        self.move_to();
        let need_reset = !((self.movement == Movement::Walk || self.movement == Movement::Run)
            && holding);
        if self.timeout() && need_reset {
            self.timer = 0;
            self.key_list.reset();
            self.switch_to(Movement::Stop);
        } else {
            self.timer = self.timer + 1;
        }
        false
    }

    /// FrameSelector: hands out the frame the player shows this tick.
    pub fn get_frame(&self) -> (r: &Vec<u32>)
        requires
            frames_ok(*self),
        ensures
            r@ == current_frame(*self),
    {
        let ptr = self.movement.index();
        if self.dire == Dire::Left {
            &self.stream[ptr].left[self.ptr_frame]
        } else {
            &self.stream[ptr].right[self.ptr_frame]
        }
    }

    /// Counts the animation down one tick: while the frame timer runs the
    /// frame stays, and when it hits zero the cursor moves to the next
    /// frame — wrapping around at the end — and the timer reloads from the
    /// player's speed.
    pub fn next_frame(&mut self)
        requires
            movement_index(old(self).movement) < old(self).stream@.len(),
            old(self).ptr_frame < usize::MAX,
        ensures
            same_rig(*old(self), *final(self)),
            final(self).movement == old(self).movement,
            final(self).dire == old(self).dire,
            final(self).x_offset == old(self).x_offset,
            final(self).timer == old(self).timer,
            final(self).key_list == old(self).key_list,
            old(self).frame_timer > 0 ==> final(self).frame_timer == old(self).frame_timer - 1
                && final(self).ptr_frame == old(self).ptr_frame,
            old(self).frame_timer == 0 ==> final(self).frame_timer == speed_ticks(old(self).speed)
                && final(self).ptr_frame == (if old(self).ptr_frame + 1 < old(self).stream@[
                movement_index(old(self).movement)
            ].right@.len() {
                old(self).ptr_frame + 1
            } else {
                0
            }),
    {
        if self.frame_timer > 0 {
            self.frame_timer -= 1;
        } else {
            let ptr = self.movement.index();
            if self.ptr_frame + 1 < self.stream[ptr].right.len() {
                self.ptr_frame += 1;
            } else {
                self.ptr_frame = 0;
            }
            self.frame_timer = self.speed.ticks();
        }
    }

    /// Appends one decoded animation to the stream: every frame's bytes,
    /// with their closing byte cleared, are repacked into display pixels
    /// for the right-facing run, and mirrored for the left-facing one.
    pub fn load_stream(&mut self, tag: Movement, frames: &Vec<Vec<u8>>, width: u32, height: u32)
        requires
            width >= 1,
            height >= 1,
            4 * (width as int) * (height as int) <= usize::MAX,
            forall|i: int|
                0 <= i < frames@.len() ==> (#[trigger] frames@[i])@.len() == 4 * (width as int) * (
                height as int),
        ensures
            final(self).stream@.len() == old(self).stream@.len() + 1,
            forall|i: int|
                0 <= i < old(self).stream@.len() ==> final(self).stream@[i] == old(self).stream@[i],
            final(self).stream@.last().tag == tag,
            final(self).stream@.last().width == width,
            final(self).stream@.last().right@.len() == frames@.len(),
            final(self).stream@.last().left@.len() == frames@.len(),
            forall|i: int|
                0 <= i < frames@.len() ==> (#[trigger] final(self).stream@.last().right@[i])@
                    == frame_argb(zero_last(frames@[i]@)),
            forall|i: int|
                0 <= i < frames@.len() ==> (#[trigger] final(self).stream@.last().left@[i])@
                    == mirrored(
                    frame_argb(zero_last(frames@[i]@)),
                    width as int,
                    height as int,
                ),
            final(self).ptr_frame == old(self).ptr_frame,
            final(self).ptr_packet == old(self).ptr_packet,
            final(self).hp == old(self).hp,
            final(self).ep == old(self).ep,
            final(self).block_body == old(self).block_body,
            final(self).block_head == old(self).block_head,
            final(self).block_hand == old(self).block_hand,
            final(self).block_leg == old(self).block_leg,
            final(self).x_offset == old(self).x_offset,
            final(self).y_offset == old(self).y_offset,
            final(self).movement == old(self).movement,
            final(self).status == old(self).status,
            final(self).speed == old(self).speed,
            final(self).frame_timer == old(self).frame_timer,
            final(self).timer == old(self).timer,
            final(self).dire == old(self).dire,
            final(self).is_p1 == old(self).is_p1,
            final(self).key_list == old(self).key_list,
    {
        let ghost wh = (width as int) * (height as int);
        let mut right_frames: Vec<Vec<u32>> = Vec::with_capacity(frames.len());
        let mut left_frames: Vec<Vec<u32>> = Vec::with_capacity(frames.len());
        let mut i: usize = 0;
        while i < frames.len()
            invariant
                i <= frames@.len(),
                width >= 1,
                height >= 1,
                4 * (width as int) * (height as int) <= usize::MAX,
                wh == (width as int) * (height as int),
                forall|j: int|
                    0 <= j < frames@.len() ==> (#[trigger] frames@[j])@.len() == 4 * (width as int)
                        * (height as int),
                right_frames@.len() == i,
                left_frames@.len() == i,
                forall|j: int|
                    0 <= j < i ==> (#[trigger] right_frames@[j])@ == frame_argb(
                        zero_last(frames@[j]@),
                    ),
                forall|j: int|
                    0 <= j < i ==> (#[trigger] left_frames@[j])@ == mirrored(
                        frame_argb(zero_last(frames@[j]@)),
                        width as int,
                        height as int,
                    ),
            decreases frames@.len() - i,
        {
            proof {
                assert(4 * wh == 4 * (width as int) * (height as int)) by (nonlinear_arith)
                    requires wh == (width as int) * (height as int);
                assert(wh >= 1) by (nonlinear_arith)
                    requires wh == (width as int) * (height as int), width >= 1, height >= 1;
                lemma_div_multiples_vanish(wh, 4);
            }
            let mut bytes: Vec<u8> = copy_vec(&frames[i]);
            let blen = bytes.len();
            bytes.set(blen - 1, 0);
            let mut tmp: Vec<u32> = Vec::new();
            argb_u32(&mut tmp, bytes.as_slice());
            right_frames.push(copy_vec(&tmp));
            turn(&mut tmp, width as usize, height as usize);
            left_frames.push(tmp);
            i += 1;
        }
        self.stream.push(Packet { tag, right: right_frames, left: left_frames, width });
    }

    /// Blits the player's current frame into the display buffer: the
    /// frame's rows land at the player's horizontal offset, row `y` of the
    /// buffer, skipping every pixel that holds the transparent sentinel.
    pub fn flush_buffer(&self, buffer: &mut Vec<u32>, y: u32, width: u32)
        requires
            frames_ok(*self),
            self.stream@[movement_index(self.movement)].width >= 1,
            self.x_offset + self.stream@[movement_index(self.movement)].width <= width,
            (y as int + current_frame(*self).len() as int / (self.stream@[movement_index(
                self.movement,
            )].width as int)) * (width as int) <= old(buffer)@.len(),
            (y as int) * (width as int) + (self.x_offset as int) <= usize::MAX,
        ensures
            final(buffer)@ == blit_spec(
                old(buffer)@,
                current_frame(*self),
                (y as int) * (width as int) + (self.x_offset as int),
                width as int,
                self.stream@[movement_index(self.movement)].width as int,
            ),
    {
        let ptr = self.movement.index();
        let color = self.get_frame();
        let bw = self.stream[ptr].width as usize;
        let bh = color.len() / bw;
        let blen = buffer.len();
        let clen = color.len();
        let ghost base = buffer@;
        let ghost f = current_frame(*self);
        let ghost ww = width as int;
        let ghost bww = bw as int;
        let ghost bhh = f.len() as int / (bw as int);
        let ghost start = (y as int) * ww + (self.x_offset as int);
        proof {
            lemma_fundamental_div_mod(f.len() as int, bww);
            assert(bww * bhh <= f.len());
            assert(bhh * bww == bww * bhh) by (nonlinear_arith);
            assert((y as int) * ww >= 0) by (nonlinear_arith)
                requires y as int >= 0, ww >= 0;
            assert((y as int + bhh) * ww == (y as int) * ww + bhh * ww) by (nonlinear_arith);
            assert(bhh * ww >= 0) by (nonlinear_arith)
                requires bhh >= 0, ww >= 0;
        }
        let mut pos: usize = 0;
        let mut h: usize = 0;
        while h < bh
            invariant
                frames_ok(*self),
                color@ == f,
                bww == self.stream@[movement_index(self.movement)].width as int,
                bw as int == bww,
                1 <= bww <= ww,
                ww == width as int,
                self.x_offset as int + bww <= ww,
                f == current_frame(*self),
                bh as int == bhh,
                bhh == f.len() as int / bww,
                bhh * bww <= f.len(),
                clen == f.len(),
                start == (y as int) * ww + (self.x_offset as int),
                (y as int + bhh) * ww <= base.len(),
                h <= bh,
                pos == h as int * bww,
                blen == base.len(),
                buffer@.len() == base.len(),
                forall|i: int|
                    0 <= i < base.len() ==> #[trigger] buffer@[i] == blit_prefix(
                        base,
                        f,
                        start,
                        ww,
                        bww,
                        h as int,
                        0,
                    )[i],
            decreases bh - h,
        {
            proof {
                assert((h as int + 1) * bww <= bhh * bww) by (nonlinear_arith)
                    requires h as int + 1 <= bhh, bww >= 0;
                assert((h as int + 1) * bww == h as int * bww + bww) by (nonlinear_arith);
                assert((y as int + h as int) * ww == (y as int) * ww + h as int * ww)
                    by (nonlinear_arith);
                assert((y as int + h as int + 1) * ww == (y as int + h as int) * ww + ww)
                    by (nonlinear_arith);
                assert((y as int + h as int + 1) * ww <= (y as int + bhh) * ww) by (nonlinear_arith)
                    requires y as int + h as int + 1 <= y as int + bhh, ww >= 0;
                assert(y as int + h as int <= (y as int + h as int) * ww) by (nonlinear_arith)
                    requires ww >= 1, y as int + h as int >= 0;
            }
            let row = (y as usize + h) * (width as usize);
            let mut idx: usize = row + self.x_offset as usize;
            let mut o: usize = 0;
            while o < bw
                invariant
                    frames_ok(*self),
                    color@ == f,
                    bww == self.stream@[movement_index(self.movement)].width as int,
                    bw as int == bww,
                    1 <= bww <= ww,
                    ww == width as int,
                    self.x_offset as int + bww <= ww,
                    f == current_frame(*self),
                    bh as int == bhh,
                    bhh == f.len() as int / bww,
                    bhh * bww <= f.len(),
                    clen == f.len(),
                    start == (y as int) * ww + (self.x_offset as int),
                    (y as int + bhh) * ww <= base.len(),
                    h < bh,
                    (h as int + 1) * bww <= bhh * bww,
                    (h as int + 1) * bww == h as int * bww + bww,
                    (y as int + h as int + 1) * ww == (y as int) * ww + h as int * ww + ww,
                    (y as int + h as int + 1) * ww <= (y as int + bhh) * ww,
                    o <= bw,
                    pos == h as int * bww + o,
                    idx as int == start + h as int * ww + o,
                    blen == base.len(),
                    buffer@.len() == base.len(),
                    forall|i: int|
                        0 <= i < base.len() ==> #[trigger] buffer@[i] == blit_prefix(
                            base,
                            f,
                            start,
                            ww,
                            bww,
                            h as int,
                            o as int,
                        )[i],
                decreases bw - o,
            {
                proof {
                    assert(idx < base.len());
                    assert(pos < f.len());
                    lemma_fundamental_div_mod_converse(
                        (idx as int) - start,
                        ww,
                        h as int,
                        o as int,
                    );
                }
                let c = color[pos];
                let ghost before = buffer@;
                if c == TRANSPARENT {
                    // the background shows through this pixel
                } else {
                    buffer.set(idx, c);
                }
                proof {
                    assert(c == f[pos as int]);
                    if c == TRANSPARENT {
                        assert(buffer@ == before);
                    } else {
                        assert(buffer@ == before.update(idx as int, c));
                    }
                    assert forall|i: int| 0 <= i < base.len() implies buffer@[i] == blit_prefix(
                        base,
                        f,
                        start,
                        ww,
                        bww,
                        h as int,
                        o as int + 1,
                    )[i] by {
                        let rel = i - start;
                        let target = blit_prefix(base, f, start, ww, bww, h as int, o as int + 1)[i];
                        if i == idx as int {
                            assert(rel == h as int * ww + o as int);
                            assert(rel / ww == h as int && rel % ww == o as int);
                            assert(h as int * bww + o as int == pos as int);
                            if c == TRANSPARENT {
                                assert(target == base[i]);
                                assert(buffer@[i] == before[i]);
                                assert(before[i] == blit_prefix(
                                    base,
                                    f,
                                    start,
                                    ww,
                                    bww,
                                    h as int,
                                    o as int,
                                )[i]);
                                assert(blit_prefix(base, f, start, ww, bww, h as int, o as int)[i]
                                    == base[i]);
                            } else {
                                assert(target == f[pos as int]);
                                assert(buffer@[i] == c);
                            }
                        } else {
                            assert(buffer@[i] == before[i]);
                            assert(before[i] == blit_prefix(
                                base,
                                f,
                                start,
                                ww,
                                bww,
                                h as int,
                                o as int,
                            )[i]);
                            if rel >= 0 && rel / ww == h as int && rel % ww == o as int {
                                lemma_fundamental_div_mod(rel, ww);
                                assert(rel == ww * (rel / ww) + rel % ww);
                                assert(ww * (h as int) == (h as int) * ww) by (nonlinear_arith);
                                assert(rel == h as int * ww + o as int);
                                assert(i == idx as int);
                            }
                            assert(blit_prefix(base, f, start, ww, bww, h as int, o as int)[i]
                                == target);
                        }
                    }
                }
                idx += 1;
                pos += 1;
                o += 1;
            }
            h += 1;
            proof {
                assert forall|i: int| 0 <= i < base.len() implies buffer@[i] == blit_prefix(
                    base,
                    f,
                    start,
                    ww,
                    bww,
                    h as int,
                    0,
                )[i] by {
                    assert(buffer@[i] == blit_prefix(
                        base,
                        f,
                        start,
                        ww,
                        bww,
                        h as int - 1,
                        bww,
                    )[i]);
                }
            }
        }
        proof {
            assert(buffer@ =~= blit_spec(base, f, start, ww, bww));
        }
    }
}

impl Block {
    pub fn new(x: u32, y: u32, width: u32, height: u32) -> (r: Self)
        requires
            x + width <= u32::MAX,
            y + height <= u32::MAX,
        ensures
            r.x1 == x,
            r.x2 == x + width,
            r.y1 == y,
            r.y2 == y + height,
    {
        Self { x1: x, x2: x + width, y1: y, y2: y + height }
    }

    pub fn gen_body(&self, x: u32, y: u32, width: u32, height: u32) -> (r: Self)
        requires
            self.x1 + x <= u32::MAX,
            self.x2 + x + width <= u32::MAX,
            self.y1 + y <= u32::MAX,
            self.y2 + y + height <= u32::MAX,
        ensures
            r.x1 == self.x1 + x,
            r.x2 == self.x2 + x + width,
            r.y1 == self.y1 + y,
            r.y2 == self.y2 + y + height,
    {
        Self {
            x1: self.x1 + x,
            x2: self.x2 + x + width,
            y1: self.y1 + y,
            y2: self.y2 + y + height,
        }
    }

    /// Which side of this block the other block lies on, by the first
    /// coordinate comparison that answers.
    pub fn check(&self, block2: &Block) -> (r: Dire)
        ensures
            r == check_side(*self, *block2),
    {
        if self.x2 <= block2.x1 {
            Dire::Right
        } else if self.x1 <= block2.x2 {
            Dire::Left
        } else if self.x1 <= block2.y1 {
            Dire::Up
        } else if self.y1 >= block2.x1 {
            Dire::Down
        } else {
            Dire::Unknown
        }
    }
}

/// The side that `Block::check` reports.
pub open spec fn check_side(a: Block, b: Block) -> Dire {
    if a.x2 <= b.x1 {
        Dire::Right
    } else if a.x1 <= b.x2 {
        Dire::Left
    } else if a.x1 <= b.y1 {
        Dire::Up
    } else if a.y1 >= b.x1 {
        Dire::Down
    } else {
        Dire::Unknown
    }
}

impl Buffer {
    pub fn new(data: Vec<u32>, width: u32) -> (r: Self)
        requires
            width >= 1,
            data@.len() as int / width as int <= u32::MAX,
        ensures
            r.height == data@.len() as int / width as int,
            r.data == data,
            r.width == width,
    {
        Self { height: (data.len() / width as usize) as u32, data, width }
    }
}

} // verus!
