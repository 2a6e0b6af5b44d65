use vstd::prelude::*;
use bevy_math::Vec2;
use tokio::time::Instant;
use crate::clock::now;
use crate::constants::MAX_HP;
use crate::vector::zero_vector;

verus! {

/// A player as a client draws it.
#[derive(Clone, Copy)]
pub struct Player {
    pub health: u32,
    pub pos: Vec2,
    pub vel: Vec2,
    pub mouse: Vec2,
}

/// A player with full health whose position, velocity and cursor are one
/// and the same vector. [`Player::new`] makes such a player with the zero
/// vector; that the vector is zero is a float fact this predicate does not
/// hold.
pub open spec fn is_spawn_state(p: Player) -> bool {
    &&& p.health == MAX_HP
    &&& p.pos == p.vel
    &&& p.vel == p.mouse
}

impl Player {
    /// A player at full health, standing still at the origin and aiming at it.
    pub fn new() -> (p: Self)
        ensures
            is_spawn_state(p),
    {
        let zero = zero_vector();
        Player { health: MAX_HP, pos: zero, vel: zero, mouse: zero }
    }
}

/// A player's state together with the time it was received.
#[derive(Clone, Copy)]
pub struct TimeStampedPlayer {
    pub player: Player,
    pub time: Instant,
}

impl TimeStampedPlayer {
    /// A new player, stamped with the current time.
    pub fn new() -> (s: Self)
        ensures
            is_spawn_state(s.player),
    {
        TimeStampedPlayer { player: Player::new(), time: now() }
    }
}

/// A remote player as a client tracks it: the two most recent samples of its
/// state, which updates have already gone into the newest sample, and how
/// many of its shots are still to be drawn.
pub struct PlayerInterpolater {
    to_shoot: u32,
    mouse_moved: bool,
    pos_moved: bool,
    old: Option<TimeStampedPlayer>,
    new: Option<TimeStampedPlayer>,
}

/// The model of a [`PlayerInterpolater`]: the same fields, readable in
/// contracts.
pub struct InterpolaterView {
    pub to_shoot: u32,
    pub mouse_moved: bool,
    pub pos_moved: bool,
    pub old: Option<TimeStampedPlayer>,
    pub new: Option<TimeStampedPlayer>,
}

impl View for PlayerInterpolater {
    type V = InterpolaterView;

    closed spec fn view(&self) -> InterpolaterView {
        InterpolaterView {
            to_shoot: self.to_shoot,
            mouse_moved: self.mouse_moved,
            pos_moved: self.pos_moved,
            old: self.old,
            new: self.new,
        }
    }
}

impl PlayerInterpolater {
    /// Every tracker has a newest sample: it starts with one, and no update
    /// takes it away.
    #[verifier::type_invariant]
    pub open spec fn has_newest(self) -> bool {
        self@.new is Some
    }
}

/// A tracker that has seen one sample, `first`.
pub open spec fn started_with(first: TimeStampedPlayer) -> InterpolaterView {
    InterpolaterView { to_shoot: 0, mouse_moved: false, pos_moved: false, old: None, new: Some(first) }
}

pub open spec fn inc_shots_spec(v: InterpolaterView) -> InterpolaterView {
    InterpolaterView { to_shoot: (v.to_shoot + 1) as u32, ..v }
}

/// The tracker after one pending shot is taken, and whether there was one.
pub open spec fn shoot_spec(v: InterpolaterView) -> (InterpolaterView, bool) {
    if v.to_shoot > 0 {
        (InterpolaterView { to_shoot: (v.to_shoot - 1) as u32, ..v }, true)
    } else {
        (v, false)
    }
}

/// The newest sample gets health `hp`; without a newest sample nothing changes.
pub open spec fn health_change_spec(v: InterpolaterView, hp: u32) -> InterpolaterView {
    match v.new {
        Some(s) => InterpolaterView {
            new: Some(TimeStampedPlayer { player: Player { health: hp, ..s.player }, ..s }),
            ..v
        },
        None => v,
    }
}

/// `sample` becomes the newest sample; the previous newest, if any, becomes
/// the older one, and no update has gone into the new sample yet.
pub open spec fn update_time_spec(v: InterpolaterView, sample: TimeStampedPlayer) -> InterpolaterView {
    InterpolaterView {
        old: if v.new is Some {
            v.new
        } else {
            v.old
        },
        new: Some(sample),
        pos_moved: false,
        mouse_moved: false,
        ..v
    }
}

pub open spec fn with_mouse(s: TimeStampedPlayer, mouse: Vec2) -> TimeStampedPlayer {
    TimeStampedPlayer { player: Player { mouse, ..s.player }, ..s }
}

pub open spec fn with_pos(s: TimeStampedPlayer, pos: Vec2) -> TimeStampedPlayer {
    TimeStampedPlayer { player: Player { pos, ..s.player }, ..s }
}

/// A cursor update. Without a newest sample, `fresh` starts one. If the
/// cursor already went into the newest sample, that sample is copied into a
/// new one first (the old copy becomes the older sample). Then the newest
/// sample's cursor is set.
pub open spec fn update_mouse_spec(v: InterpolaterView, mouse: Vec2, fresh: TimeStampedPlayer) -> InterpolaterView {
    match v.new {
        None => InterpolaterView {
            new: Some(with_mouse(fresh, mouse)),
            pos_moved: false,
            mouse_moved: true,
            ..v
        },
        Some(n) => if v.mouse_moved {
            InterpolaterView {
                old: Some(n),
                new: Some(with_mouse(n, mouse)),
                pos_moved: false,
                mouse_moved: true,
                ..v
            }
        } else {
            InterpolaterView { new: Some(with_mouse(n, mouse)), mouse_moved: true, ..v }
        },
    }
}

/// A position update, the same way as [`update_mouse_spec`] with the roles of
/// position and cursor swapped.
pub open spec fn update_pos_spec(v: InterpolaterView, pos: Vec2, fresh: TimeStampedPlayer) -> InterpolaterView {
    match v.new {
        None => InterpolaterView {
            new: Some(with_pos(fresh, pos)),
            pos_moved: true,
            mouse_moved: false,
            ..v
        },
        Some(n) => if v.pos_moved {
            InterpolaterView {
                old: Some(n),
                new: Some(with_pos(n, pos)),
                pos_moved: true,
                mouse_moved: false,
                ..v
            }
        } else {
            InterpolaterView { new: Some(with_pos(n, pos)), pos_moved: true, ..v }
        },
    }
}

/// Some sample of a new player, for contracts that quantify over the sample
/// a tracker starts when it has none.
spec fn any_new_sample() -> TimeStampedPlayer {
    let v: Vec2 = arbitrary();
    TimeStampedPlayer {
        player: Player { health: MAX_HP, pos: v, vel: v, mouse: v },
        time: arbitrary(),
    }
}

impl PlayerInterpolater {
    /// Starts tracking a player from its first known state, stamped now.
    pub fn from(p: Player) -> (s: Self)
        ensures
            s@ == started_with(s@.new->0),
            s@.new->0.player == p,
    {
        PlayerInterpolater {
            to_shoot: 0,
            mouse_moved: false,
            pos_moved: false,
            old: None,
            new: Some(TimeStampedPlayer { player: p, time: now() }),
        }
    }

    /// Records one more shot of this player to draw.
    pub fn inc_shots(&mut self)
        requires
            old(self)@.to_shoot < u32::MAX,
        ensures
            final(self)@ == inc_shots_spec(old(self)@),
    {
        proof {
            use_type_invariant(&*self);
        }
        self.to_shoot = self.to_shoot + 1;
    }

    /// Takes one pending shot; `false` when there is none.
    pub fn shoot(&mut self) -> (fired: bool)
        ensures
            (final(self)@, fired) == shoot_spec(old(self)@),
    {
        proof {
            use_type_invariant(&*self);
        }
        if self.to_shoot > 0 {
            self.to_shoot = self.to_shoot - 1;
            true
        } else {
            false
        }
    }

    /// Sets the health of the newest sample.
    pub fn health_change(&mut self, hp: u32)
        ensures
            final(self)@ == health_change_spec(old(self)@, hp),
    {
        proof {
            use_type_invariant(&*self);
        }
        match self.new {
            Some(mut some) => {
                some.player.health = hp;
                self.new = Some(some);
            },
            None => {},
        }
    }

    /// Starts a new sample.
    pub fn update_time(&mut self, player: TimeStampedPlayer)
        ensures
            final(self)@ == update_time_spec(old(self)@, player),
    {
        proof {
            use_type_invariant(&*self);
        }
        if self.new.is_some() {
            self.old = self.new;
        }
        self.pos_moved = false;
        self.mouse_moved = false;
        self.new = Some(player);
    }

    /// Records the player's cursor.
    pub fn update_mouse(&mut self, mouse_new: Vec2)
        ensures
            exists|fresh: TimeStampedPlayer|
                is_spawn_state(fresh.player) && final(self)@ == update_mouse_spec(
                    old(self)@,
                    mouse_new,
                    fresh,
                ),
    {
        proof {
            use_type_invariant(&*self);
        }
        let ghost start = self@;
        let ghost mut fresh = any_new_sample();
        if self.new.is_none() {
            let sample = TimeStampedPlayer::new();
            proof {
                fresh = sample;
            }
            self.new = Some(sample);
            self.pos_moved = false;
            self.mouse_moved = false;
        }
        if self.mouse_moved {
            let current = self.new.unwrap();
            self.update_time(current);
            self.pos_moved = false;
            self.mouse_moved = false;
        }
        match self.new {
            Some(mut some) => {
                some.player.mouse = mouse_new;
                self.new = Some(some);
            },
            None => {},
        }
        self.mouse_moved = true;
        assert(self@ == update_mouse_spec(start, mouse_new, fresh));
    }

    /// Records the player's position.
    pub fn update_pos(&mut self, pos_new: Vec2)
        ensures
            exists|fresh: TimeStampedPlayer|
                is_spawn_state(fresh.player) && final(self)@ == update_pos_spec(
                    old(self)@,
                    pos_new,
                    fresh,
                ),
    {
        proof {
            use_type_invariant(&*self);
        }
        let ghost start = self@;
        let ghost mut fresh = any_new_sample();
        if self.new.is_none() {
            let sample = TimeStampedPlayer::new();
            proof {
                fresh = sample;
            }
            self.new = Some(sample);
            self.pos_moved = false;
            self.mouse_moved = false;
        }
        if self.pos_moved {
            let current = self.new.unwrap();
            self.update_time(current);
            self.pos_moved = false;
            self.mouse_moved = false;
        }
        match self.new {
            Some(mut some) => {
                some.player.pos = pos_new;
                self.new = Some(some);
            },
            None => {},
        }
        self.pos_moved = true;
        assert(self@ == update_pos_spec(start, pos_new, fresh));
    }

    /// How many of this player's shots are still to be drawn.
    pub fn pending_shots(&self) -> (n: u32)
        ensures
            n == self@.to_shoot,
    {
        proof {
            use_type_invariant(self);
        }
        self.to_shoot
    }

    /// The newest sample, if any.
    pub fn newest(&self) -> (s: Option<TimeStampedPlayer>)
        ensures
            s == self@.new,
            s is Some,
    {
        proof {
            use_type_invariant(self);
        }
        self.new
    }

    /// The sample before the newest, if any.
    pub fn previous(&self) -> (s: Option<TimeStampedPlayer>)
        ensures
            s == self@.old,
    {
        proof {
            use_type_invariant(self);
        }
        self.old
    }
}

/// Drawing a shot undoes recording it: the pending shot is taken, and the
/// tracker is as it was.
pub proof fn law_shoot_undoes_inc_shots(v: InterpolaterView)
    requires
        v.to_shoot < u32::MAX,
    ensures
        shoot_spec(inc_shots_spec(v)) == (v, true),
{
}

/// With no shot pending, nothing is drawn and nothing changes.
pub proof fn law_nothing_to_shoot(v: InterpolaterView)
    requires
        v.to_shoot == 0,
    ensures
        shoot_spec(v) == (v, false),
{
}

/// A position update and a cursor update that follow a new sample go into
/// that same sample: the older sample stays, and the newest one gets both.
pub proof fn law_position_and_cursor_share_a_sample(
    v: InterpolaterView,
    pos: Vec2,
    mouse: Vec2,
    f1: TimeStampedPlayer,
    f2: TimeStampedPlayer,
)
    requires
        v.new is Some,
        !v.pos_moved,
        !v.mouse_moved,
    ensures
        update_mouse_spec(update_pos_spec(v, pos, f1), mouse, f2).old == v.old,
        update_mouse_spec(update_pos_spec(v, pos, f1), mouse, f2).new == Some(
            with_mouse(with_pos(v.new->0, pos), mouse),
        ),
        update_pos_spec(update_mouse_spec(v, mouse, f1), pos, f2).old == v.old,
        update_pos_spec(update_mouse_spec(v, mouse, f1), pos, f2).new == Some(
            with_pos(with_mouse(v.new->0, mouse), pos),
        ),
{
}

/// A second position update within a sample starts the next sample: the
/// sample holding the first position becomes the older one, and the newest
/// one holds the second position.
pub proof fn law_second_position_starts_a_sample(
    v: InterpolaterView,
    p1: Vec2,
    p2: Vec2,
    f1: TimeStampedPlayer,
    f2: TimeStampedPlayer,
)
    requires
        v.new is Some,
    ensures
        update_pos_spec(update_pos_spec(v, p1, f1), p2, f2).old == Some(with_pos(v.new->0, p1)),
        update_pos_spec(update_pos_spec(v, p1, f1), p2, f2).new == Some(
            with_pos(with_pos(v.new->0, p1), p2),
        ),
{
}

/// A new sample pushes the newest one back: what was newest becomes the
/// older sample.
pub proof fn law_update_time_keeps_previous(v: InterpolaterView, sample: TimeStampedPlayer)
    requires
        v.new is Some,
    ensures
        update_time_spec(v, sample).old == v.new,
        update_time_spec(v, sample).new == Some(sample),
        update_time_spec(v, sample).to_shoot == v.to_shoot,
{
}

/// `n` shots recorded one after another.
pub open spec fn inc_shots_times(v: InterpolaterView, n: nat) -> InterpolaterView
    decreases n,
{
    if n == 0 {
        v
    } else {
        inc_shots_spec(inc_shots_times(v, (n - 1) as nat))
    }
}

/// `m` draws one after another: the tracker afterwards, and what each draw
/// returned, in order.
pub open spec fn shoot_times(v: InterpolaterView, m: nat) -> (InterpolaterView, Seq<bool>)
    decreases m,
{
    if m == 0 {
        (v, Seq::empty())
    } else {
        let (w, fired) = shoot_times(v, (m - 1) as nat);
        let (w2, b) = shoot_spec(w);
        (w2, fired.push(b))
    }
}

proof fn lemma_inc_shots_times(v: InterpolaterView, n: nat)
    requires
        v.to_shoot + n <= u32::MAX,
    ensures
        inc_shots_times(v, n) == (InterpolaterView { to_shoot: (v.to_shoot + n) as u32, ..v }),
    decreases n,
{
    if n > 0 {
        lemma_inc_shots_times(v, (n - 1) as nat);
    }
}

proof fn lemma_shoot_times(v: InterpolaterView, m: nat)
    ensures
        shoot_times(v, m).1.len() == m,
        forall|i: int| 0 <= i < m ==> shoot_times(v, m).1[i] == (i < v.to_shoot),
        shoot_times(v, m).0 == (InterpolaterView {
            to_shoot: if m <= v.to_shoot {
                (v.to_shoot - m) as u32
            } else {
                0u32
            },
            ..v
        }),
    decreases m,
{
    if m > 0 {
        lemma_shoot_times(v, (m - 1) as nat);
    }
}

/// After `n` shots are recorded, `m` draws succeed exactly `min(n, m)` times
/// (counting the shots already pending), first the successes and then the
/// failures; what is left pending is what was not drawn, and nothing but the
/// count changes.
pub proof fn law_recorded_shots_are_drawn(v: InterpolaterView, n: nat, m: nat)
    requires
        v.to_shoot + n <= u32::MAX,
    ensures
        shoot_times(inc_shots_times(v, n), m).1.len() == m,
        forall|i: int|
            0 <= i < m ==> shoot_times(inc_shots_times(v, n), m).1[i] == (i < v.to_shoot + n),
        shoot_times(inc_shots_times(v, n), m).0 == (InterpolaterView {
            to_shoot: if m <= v.to_shoot + n {
                (v.to_shoot + n - m) as u32
            } else {
                0u32
            },
            ..v
        }),
{
    lemma_inc_shots_times(v, n);
    lemma_shoot_times(inc_shots_times(v, n), m);
}

/// No update takes away the newest sample, so a tracker, which starts with
/// one, always has one.
pub proof fn law_updates_keep_newest(
    v: InterpolaterView,
    hp: u32,
    sample: TimeStampedPlayer,
    at: Vec2,
    fresh: TimeStampedPlayer,
)
    requires
        v.new is Some,
    ensures
        started_with(sample).new is Some,
        v.to_shoot < u32::MAX ==> inc_shots_spec(v).new is Some,
        shoot_spec(v).0.new is Some,
        health_change_spec(v, hp).new is Some,
        update_time_spec(v, sample).new is Some,
        update_mouse_spec(v, at, fresh).new is Some,
        update_pos_spec(v, at, fresh).new is Some,
{
}

/// `n` with its position and cursor replaced.
pub open spec fn moved_sample(n: TimeStampedPlayer, pos: Vec2, mouse: Vec2) -> TimeStampedPlayer {
    TimeStampedPlayer { player: Player { pos, mouse, ..n.player }, ..n }
}

/// Two rounds of updates, each a position and a cursor (in either order),
/// after a sample into which nothing has gone yet, leave two samples: the
/// older holds the first round's position and cursor, the newest the second
/// round's; nothing else of the sample changes.
pub proof fn law_two_rounds_give_two_samples(
    v: InterpolaterView,
    a1: Vec2,
    b1: Vec2,
    a2: Vec2,
    b2: Vec2,
    f1: TimeStampedPlayer,
    f2: TimeStampedPlayer,
    f3: TimeStampedPlayer,
    f4: TimeStampedPlayer,
)
    requires
        v.new is Some,
        !v.pos_moved,
        !v.mouse_moved,
    ensures
        ({
            let w = update_mouse_spec(
                update_pos_spec(update_mouse_spec(update_pos_spec(v, a1, f1), b1, f2), a2, f3),
                b2,
                f4,
            );
            &&& w.old == Some(moved_sample(v.new->0, a1, b1))
            &&& w.new == Some(moved_sample(v.new->0, a2, b2))
            &&& w.to_shoot == v.to_shoot
        }),
        ({
            let w = update_pos_spec(
                update_mouse_spec(update_pos_spec(update_mouse_spec(v, b1, f1), a1, f2), b2, f3),
                a2,
                f4,
            );
            &&& w.old == Some(moved_sample(v.new->0, a1, b1))
            &&& w.new == Some(moved_sample(v.new->0, a2, b2))
            &&& w.to_shoot == v.to_shoot
        }),
{
}

/// An update of a field that already went into the newest sample starts a
/// new sample: the newest becomes the older one, and only that update is
/// recorded in the new sample.
pub proof fn law_repeated_update_starts_clean_sample(
    v: InterpolaterView,
    at: Vec2,
    fresh: TimeStampedPlayer,
)
    requires
        v.new is Some,
    ensures
        v.pos_moved ==> {
            let w = update_pos_spec(v, at, fresh);
            &&& w.old == v.new
            &&& w.pos_moved
            &&& !w.mouse_moved
        },
        v.mouse_moved ==> {
            let w = update_mouse_spec(v, at, fresh);
            &&& w.old == v.new
            &&& w.mouse_moved
            &&& !w.pos_moved
        },
{
}

} // verus!
