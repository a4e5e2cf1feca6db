use vstd::prelude::*;
use crate::battle_objects::buildables::Wall;
use crate::battle_objects::coordinates::{snapped, valid_facing, Direction, GameCoord};
use crate::screens::battle::ActionButton;
use crate::utils::collisions::{line_to_square_intersect, segment_hits_square};

verus! {

/// The player of a battle. The facing is in thousandths of a degree,
/// counter-clockwise from due east.
#[derive(Clone, Copy, Debug, PartialEq, Eq, Structural)]
pub struct BattlePlayerContext {
    pub game_coord: GameCoord,
    pub facing_vector: i32,
    pub base_vision_range: u8,
    pub ability_primary: Ability,
    pub ability_secondary: Ability,
    pub snapped_facing_vector: Direction,
    pub state: PlayerState,
}

/// What the player is doing. Where two numbers follow, they are the ticks
/// spent in the state and the ticks it takes.
#[derive(Debug, Clone, Copy, PartialEq, Eq, Structural)]
pub enum PlayerState {
    Standing,
    Running,
    Learning(ActionButton, u32, u32),
    MeleeAttacking(u32, u32),
    RangeTargeting,
    RangeAttacking(u32, u32),
    ButtonPressing(u32, u32),
    BuildChoosing,
    BuildPlacing(u32, u32),
    Repairing(u32, u32),
    Healing(u32, u32),
}

/// What an ability slot can hold.
#[derive(Debug, Clone, Copy, PartialEq, Eq, Structural)]
pub enum Ability {
    Blank,
    MeleeAttack,
    Armor,
    RangeAttack,
    Vision,
    Build,
    Repair,
    ButtonPress,
    Heal,
}

/// How far a running player moves along an axis in one tick when the axis
/// lies `angle` thousandths of a degree from the heading: the running speed
/// of two units times the cosine of the angle, the fraction cut off toward
/// zero. That is the full two units only straight along the axis, one unit
/// within sixty degrees of it, and nothing up to a right angle; and the same
/// backward.
pub open spec fn stride_along(angle: int) -> int {
    let turned = angle % 360000;
    let away = if turned > 180000 {
        360000 - turned
    } else {
        turned
    };
    if away == 0 {
        2
    } else if away <= 60000 {
        1
    } else if away < 120000 {
        0
    } else if away < 180000 {
        -1
    } else {
        -2
    }
}

/// Where a player at `from` stands after running one tick toward `angle`:
/// moved by the stride along east, and against the stride along north, for
/// `y` grows to the south.
pub open spec fn run_from(from: GameCoord, angle: int) -> GameCoord {
    GameCoord {
        x: (from.x + stride_along(angle)) as i32,
        y: (from.y - stride_along(angle - 90000)) as i32,
    }
}

/// The state that using an ability puts the player in. Armor and vision work
/// by being held and start nothing.
pub open spec fn activation(ability: Ability) -> PlayerState {
    match ability {
        Ability::Blank => PlayerState::Standing,
        Ability::MeleeAttack => PlayerState::MeleeAttacking(0, 25),
        Ability::Armor => PlayerState::Standing,
        Ability::RangeAttack => PlayerState::RangeTargeting,
        Ability::Vision => PlayerState::Standing,
        Ability::Build => PlayerState::BuildPlacing(0, 25),
        Ability::Repair => PlayerState::Repairing(0, 25),
        Ability::ButtonPress => PlayerState::ButtonPressing(0, 25),
        Ability::Heal => PlayerState::Healing(0, 25),
    }
}

/// Whether a wall is there and touches the square of side `width` around
/// `center`.
pub open spec fn wall_hit(wall: Option<&Wall>, center: GameCoord, width: u32) -> bool {
    match wall {
        Some(w) => segment_hits_square(
            (w.endpoints.0.as_point(), w.endpoints.1.as_point()),
            (center.as_point(), width),
        ),
        None => false,
    }
}

/// Which of up to four walls touch the square of side `width` around
/// `center`.
pub open spec fn wall_hits(
    center: GameCoord,
    width: u32,
    top_wall: Option<&Wall>,
    right_wall: Option<&Wall>,
    bottom_wall: Option<&Wall>,
    left_wall: Option<&Wall>,
) -> (bool, bool, bool, bool) {
    (
        wall_hit(top_wall, center, width),
        wall_hit(right_wall, center, width),
        wall_hit(bottom_wall, center, width),
        wall_hit(left_wall, center, width),
    )
}

/// Which of up to four walls touch the square of side `width` around
/// `center`.
pub fn collisions_with(
    center: GameCoord,
    width: u32,
    top_wall: Option<&Wall>,
    right_wall: Option<&Wall>,
    bottom_wall: Option<&Wall>,
    left_wall: Option<&Wall>,
) -> (hits: (bool, bool, bool, bool))
    ensures
        hits == wall_hits(center, width, top_wall, right_wall, bottom_wall, left_wall),
{
    let mut collisions = (false, false, false, false);
    let square = (center.as_point(), width);
    if let Some(wall) = top_wall {
        if line_to_square_intersect((wall.endpoints.0.as_point(), wall.endpoints.1.as_point()), square) {
            collisions.0 = true;
        }
    }
    if let Some(wall) = right_wall {
        if line_to_square_intersect((wall.endpoints.0.as_point(), wall.endpoints.1.as_point()), square) {
            collisions.1 = true;
        }
    }
    if let Some(wall) = bottom_wall {
        if line_to_square_intersect((wall.endpoints.0.as_point(), wall.endpoints.1.as_point()), square) {
            collisions.2 = true;
        }
    }
    if let Some(wall) = left_wall {
        if line_to_square_intersect((wall.endpoints.0.as_point(), wall.endpoints.1.as_point()), square) {
            collisions.3 = true;
        }
    }
    collisions
}

/// The snapped facing of a player goes by the angle last taken: a tick of
/// input on a player whose snapped facing is that of its angle leaves it so.
pub proof fn lemma_facing_follows_angle(
    player: BattlePlayerContext,
    plot: Option<Ability>,
    intent: Option<i32>,
    primary: bool,
    secondary: bool,
    learning_time: u32,
)
    requires
        player.faces_its_angle(),
        intent matches Some(angle) ==> valid_facing(angle as int),
    ensures
        player.after_input(plot, intent, primary, secondary, learning_time).faces_its_angle(),
{
}

/// A slot changes only when learning ends: the player has been learning
/// with the button of that slot for the full time, holds that button alone,
/// and stands on a plot; and the slot then holds what the plot teaches.
pub proof fn lemma_slots_fill_by_learning(
    player: BattlePlayerContext,
    plot: Option<Ability>,
    intent: Option<i32>,
    primary: bool,
    secondary: bool,
    learning_time: u32,
    button: ActionButton,
)
    requires
        player.after_input(plot, intent, primary, secondary, learning_time).slot(button) != player.slot(button),
    ensures
        player.state matches PlayerState::Learning(with, curr, max) && with == button && curr >= max,
        BattlePlayerContext::held(primary, secondary) == Some(button),
        plot == Some(player.after_input(plot, intent, primary, secondary, learning_time).slot(button)),
{
}

fn stride(angle: i32) -> (step: i32)
    requires
        -500000 <= angle <= 500000,
    ensures
        step == stride_along(angle as int),
{
    let turned: i32 = (angle + 720000) % 360000;
    let away: i32 = if turned > 180000 {
        360000 - turned
    } else {
        turned
    };
    if away == 0 {
        2
    } else if away <= 60000 {
        1
    } else if away < 120000 {
        0
    } else if away < 180000 {
        -1
    } else {
        -2
    }
}

impl PlayerState {
    /// The player after this state has been put in place of the old one.
    pub open spec fn on(self, player: BattlePlayerContext) -> BattlePlayerContext {
        BattlePlayerContext { state: self, ..player }
    }
}

impl Ability {
    /// The words the heads-up display shows for the ability.
    pub open spec fn hud_text(&self) -> Seq<char> {
        match self {
            Ability::Blank => ""@,
            Ability::MeleeAttack => "Melee Attack"@,
            Ability::Armor => "Armor"@,
            Ability::RangeAttack => "Range Attack"@,
            Ability::Vision => "Vision"@,
            Ability::Build => "Build"@,
            Ability::Repair => "Repair"@,
            Ability::ButtonPress => "Press Button"@,
            Ability::Heal => "Heal"@,
        }
    }

    /// The words the heads-up display shows for the ability.
    pub fn get_hud_text(&self) -> (text: String)
        ensures
            text@ == self.hud_text(),
    {
        match self {
            Ability::Blank => "".to_owned(),
            Ability::MeleeAttack => "Melee Attack".to_owned(),
            Ability::Armor => "Armor".to_owned(),
            Ability::RangeAttack => "Range Attack".to_owned(),
            Ability::Vision => "Vision".to_owned(),
            Ability::Build => "Build".to_owned(),
            Ability::Repair => "Repair".to_owned(),
            Ability::ButtonPress => "Press Button".to_owned(),
            Ability::Heal => "Heal".to_owned(),
        }
    }
}

impl BattlePlayerContext {
    pub open spec fn spec_width() -> u32 {
        16
    }

    /// The side of the square the player fills, in world units.
    #[verifier::when_used_as_spec(spec_width)]
    pub fn width() -> (side: u32)
        ensures
            side == 16,
    {
        16
    }

    pub open spec fn spec_running_speed() -> i32 {
        2
    }

    /// How far the player runs in one tick, in world units.
    #[verifier::when_used_as_spec(spec_running_speed)]
    pub fn running_speed() -> (speed: i32)
        ensures
            speed == 2,
    {
        2
    }

    /// Whether the snapped facing is the one that goes with the angle.
    pub open spec fn faces_its_angle(&self) -> bool {
        valid_facing(self.facing_vector as int) && self.snapped_facing_vector == snapped(
            self.facing_vector as int,
        )
    }

    /// Whether the player holds the vision ability in either slot.
    pub open spec fn sees_far(&self) -> bool {
        self.ability_primary == Ability::Vision || self.ability_secondary == Ability::Vision
    }

    /// Whether the vision range fits its number: a player with the vision
    /// ability sees twice the base range.
    pub open spec fn vision_fits(&self) -> bool {
        self.sees_far() ==> self.base_vision_range <= 127
    }

    pub open spec fn spec_vision_range(&self) -> u8 {
        if self.sees_far() {
            (2 * self.base_vision_range) as u8
        } else {
            self.base_vision_range
        }
    }

    /// How many cells ahead the player sees: the base range, doubled by the
    /// vision ability in either slot.
    #[verifier::when_used_as_spec(spec_vision_range)]
    pub fn get_vision_range(&self) -> (range: u8)
        requires
            self.vision_fits(),
        ensures
            range == self.spec_vision_range(),
            self.sees_far() ==> range == 2 * self.base_vision_range,
            !self.sees_far() ==> range == self.base_vision_range,
    {
        match (self.ability_primary, self.ability_secondary) {
            (Ability::Vision, _) => 2 * self.base_vision_range,
            (_, Ability::Vision) => 2 * self.base_vision_range,
            (_, _) => self.base_vision_range,
        }
    }

    /// Which of the walls on the four edges of the player's cell the player
    /// touches.
    pub fn get_collisions(
        &self,
        top_wall: Option<&Wall>,
        right_wall: Option<&Wall>,
        bottom_wall: Option<&Wall>,
        left_wall: Option<&Wall>,
    ) -> (hits: (bool, bool, bool, bool))
        ensures
            hits == wall_hits(self.game_coord, 16, top_wall, right_wall, bottom_wall, left_wall),
    {
        collisions_with(
            self.game_coord,
            BattlePlayerContext::width(),
            top_wall,
            right_wall,
            bottom_wall,
            left_wall,
        )
    }

    /// Whether the player can take one tick of any input without leaving
    /// the machine's numbers.
    pub open spec fn can_act(&self) -> bool {
        &&& self.game_coord.in_arena()
        &&& self.vision_fits()
    }

    /// Whether the player can take one tick of any input without leaving
    /// the machine's numbers.
    pub fn is_able_to_act(&self) -> (yes: bool)
        ensures
            yes == self.can_act(),
    {
        let sees_far = match (self.ability_primary, self.ability_secondary) {
            (Ability::Vision, _) => true,
            (_, Ability::Vision) => true,
            (_, _) => false,
        };
        self.game_coord.is_in_arena() && (!sees_far || self.base_vision_range <= 127)
    }

    /// The ability in the slot of `button`.
    pub open spec fn slot(&self, button: ActionButton) -> Ability {
        match button {
            ActionButton::Primary => self.ability_primary,
            ActionButton::Secondary => self.ability_secondary,
        }
    }

    /// The player with `ability` in the slot of `button`.
    pub open spec fn with_slot(self, button: ActionButton, ability: Ability) -> BattlePlayerContext {
        match button {
            ActionButton::Primary => BattlePlayerContext { ability_primary: ability, ..self },
            ActionButton::Secondary => BattlePlayerContext { ability_secondary: ability, ..self },
        }
    }

    /// The player turned toward `angle`.
    pub open spec fn turned(self, angle: i32) -> BattlePlayerContext {
        BattlePlayerContext {
            facing_vector: angle,
            snapped_facing_vector: snapped(angle as int),
            ..self
        }
    }

    /// The player turned toward `angle` and moved one stride that way.
    pub open spec fn moved(self, angle: i32) -> BattlePlayerContext {
        BattlePlayerContext {
            game_coord: run_from(self.game_coord, angle as int),
            ..self.turned(angle)
        }
    }

    /// The player turned toward the intent, if there is one.
    pub open spec fn aimed(self, intent: Option<i32>) -> BattlePlayerContext {
        match intent {
            Some(angle) => self.turned(angle),
            None => self,
        }
    }

    /// The two corners between which the player would build a wall: the
    /// ends of the edge of the player's cell on the side the player faces.
    pub open spec fn build_edge(&self) -> (GameCoord, GameCoord) {
        let cell = self.game_coord.to_grid_coord();
        match self.snapped_facing_vector {
            Direction::North => (cell.top_left(), cell.top_right()),
            Direction::South => (cell.bottom_left(), cell.bottom_right()),
            Direction::West => (cell.top_left(), cell.bottom_left()),
            Direction::East => (cell.top_right(), cell.bottom_right()),
        }
    }

    /// Which button alone is held, if one is.
    pub open spec fn held(primary: bool, secondary: bool) -> Option<ActionButton> {
        if primary && !secondary {
            Some(ActionButton::Primary)
        } else if secondary && !primary {
            Some(ActionButton::Secondary)
        } else {
            None
        }
    }

    /// The player one tick later. `plot` is what the plot under the player
    /// teaches, if the player stands on one; `intent` is the angle the player
    /// wants to move toward, if any; `primary` and `secondary` say which
    /// buttons are held; `learning_time` is how many ticks learning takes.
    ///
    /// Inputs that no rule names leave the player as it is: both buttons
    /// held at once in any state that reads them, a button other than the
    /// one that learning began with, and every input while choosing what to
    /// build.
    pub open spec fn after_input(
        self,
        plot: Option<Ability>,
        intent: Option<i32>,
        primary: bool,
        secondary: bool,
        learning_time: u32,
    ) -> BattlePlayerContext {
        let held = Self::held(primary, secondary);
        let idle = !primary && !secondary;
        match self.state {
            PlayerState::Standing => {
                if idle {
                    match intent {
                        Some(angle) => PlayerState::Running.on(self.moved(angle)),
                        None => self,
                    }
                } else {
                    match held {
                        Some(button) => if plot.is_some() {
                            PlayerState::Learning(button, 0, learning_time).on(self)
                        } else {
                            activation(self.slot(button)).on(self)
                        },
                        None => self,
                    }
                }
            },
            PlayerState::Running => {
                if idle {
                    match intent {
                        Some(angle) => self.moved(angle),
                        None => PlayerState::Standing.on(self),
                    }
                } else {
                    match held {
                        Some(button) => PlayerState::Learning(button, 0, learning_time).on(self),
                        None => self,
                    }
                }
            },
            PlayerState::Learning(button, curr, max) => {
                if idle {
                    PlayerState::Standing.on(self)
                } else if held == Some(button) {
                    if curr < max {
                        if plot.is_some() {
                            PlayerState::Learning(button, (curr + 1) as u32, max).on(self)
                        } else {
                            PlayerState::Standing.on(self)
                        }
                    } else {
                        match plot {
                            Some(ability) => PlayerState::Standing.on(self.with_slot(button, ability)),
                            None => PlayerState::Standing.on(self),
                        }
                    }
                } else {
                    self
                }
            },
            PlayerState::BuildPlacing(curr, max) => {
                if idle {
                    match intent {
                        Some(angle) => PlayerState::Running.on(self.turned(angle)),
                        None => PlayerState::Standing.on(self),
                    }
                } else {
                    match held {
                        Some(button) => if curr < max {
                            if self.slot(button) == Ability::Build {
                                PlayerState::BuildPlacing((curr + 1) as u32, max).on(self.aimed(intent))
                            } else {
                                PlayerState::Standing.on(self.aimed(intent))
                            }
                        } else {
                            PlayerState::Standing.on(self)
                        },
                        None => self,
                    }
                }
            },
            PlayerState::MeleeAttacking(_, _) => PlayerState::Standing.on(self),
            PlayerState::RangeTargeting => PlayerState::Standing.on(self),
            PlayerState::RangeAttacking(_, _) => PlayerState::Standing.on(self),
            PlayerState::ButtonPressing(_, _) => PlayerState::Standing.on(self),
            PlayerState::Repairing(_, _) => PlayerState::Standing.on(self),
            PlayerState::Healing(_, _) => PlayerState::Standing.on(self),
            PlayerState::BuildChoosing => self,
        }
    }

    /// The edge the player builds a wall on in this tick, if any: the player
    /// has spent the time that placing takes, holds one button alone, and
    /// the slot of that button holds the build ability.
    pub open spec fn wall_wanted(&self, primary: bool, secondary: bool) -> Option<(GameCoord, GameCoord)> {
        match (self.state, Self::held(primary, secondary)) {
            (PlayerState::BuildPlacing(curr, max), Some(button)) => if curr >= max && self.slot(button)
                == Ability::Build {
                Some(self.build_edge())
            } else {
                None
            },
            _ => None,
        }
    }

    fn turn(&mut self, angle: i32)
        requires
            valid_facing(angle as int),
        ensures
            *final(self) == old(self).turned(angle),
    {
        self.facing_vector = angle;
        self.snapped_facing_vector = match Direction::from_facing_vector(angle) {
            Ok(direction) => direction,
            Err(_) => self.snapped_facing_vector,
        };
    }

    fn run(&mut self, angle: i32)
        requires
            valid_facing(angle as int),
            old(self).game_coord.in_arena(),
        ensures
            *final(self) == old(self).moved(angle),
    {
        self.turn(angle);
        self.game_coord.y -= stride(angle - 90000);
        self.game_coord.x += stride(angle);
    }

    fn ability_in(&self, button: ActionButton) -> (ability: Ability)
        ensures
            ability == self.slot(button),
    {
        match button {
            ActionButton::Primary => self.ability_primary,
            ActionButton::Secondary => self.ability_secondary,
        }
    }

    fn edge_to_build(&self) -> (edge: (GameCoord, GameCoord))
        requires
            self.game_coord.in_arena(),
        ensures
            edge == self.build_edge(),
    {
        let cell = self.game_coord.to_grid_coord();
        match self.snapped_facing_vector {
            Direction::North => (cell.top_left(), cell.top_right()),
            Direction::South => (cell.bottom_left(), cell.bottom_right()),
            Direction::West => (cell.top_left(), cell.bottom_left()),
            Direction::East => (cell.top_right(), cell.bottom_right()),
        }
    }

    /// Takes the player through one tick of input and says between which
    /// corners a wall is to be built, if the player builds one.
    pub fn handle_input(
        &mut self,
        plot: Option<Ability>,
        intent: Option<i32>,
        primary: bool,
        secondary: bool,
        learning_time: u32,
    ) -> (wall: Option<(GameCoord, GameCoord)>)
        requires
            old(self).game_coord.in_arena(),
            intent matches Some(angle) ==> valid_facing(angle as int),
        ensures
            *final(self) == old(self).after_input(plot, intent, primary, secondary, learning_time),
            wall == old(self).wall_wanted(primary, secondary),
    {
        let idle = !primary && !secondary;
        let held: Option<ActionButton> = if primary && !secondary {
            Some(ActionButton::Primary)
        } else if secondary && !primary {
            Some(ActionButton::Secondary)
        } else {
            None
        };
        match self.state {
            PlayerState::Standing => {
                if idle {
                    if let Some(angle) = intent {
                        self.run(angle);
                        self.state = PlayerState::Running;
                    }
                } else if let Some(button) = held {
                    //if players are standing in a learning zone, switch to learning state
                    if plot.is_some() {
                        self.state = PlayerState::Learning(button, 0, learning_time);
                    } else {
                        //otherwise, activate the ability assigned to the button
                        self.state = match self.ability_in(button) {
                            Ability::Blank => PlayerState::Standing,
                            Ability::MeleeAttack => PlayerState::MeleeAttacking(0, 25),
                            Ability::Armor => PlayerState::Standing,
                            Ability::RangeAttack => PlayerState::RangeTargeting,
                            Ability::Vision => PlayerState::Standing,
                            Ability::Build => PlayerState::BuildPlacing(0, 25),
                            Ability::Repair => PlayerState::Repairing(0, 25),
                            Ability::ButtonPress => PlayerState::ButtonPressing(0, 25),
                            Ability::Heal => PlayerState::Healing(0, 25),
                        };
                    }
                }
                None
            },
            PlayerState::Running => {
                if idle {
                    match intent {
                        Some(angle) => {
                            //still running
                            self.run(angle);
                        },
                        None => {
                            self.state = PlayerState::Standing;
                        },
                    }
                } else if let Some(button) = held {
                    self.state = PlayerState::Learning(button, 0, learning_time);
                }
                None
            },
            PlayerState::Learning(button, curr, max) => {
                if idle {
                    self.state = PlayerState::Standing;
                } else if held == Some(button) {
                    if curr < max {
                        //if player is standing in a learning zone
                        if plot.is_some() {
                            self.state = PlayerState::Learning(button, curr + 1, max);
                        } else {
                            self.state = PlayerState::Standing;
                        }
                    } else {
                        if let Some(ability) = plot {
                            match button {
                                ActionButton::Primary => {
                                    self.ability_primary = ability;
                                },
                                ActionButton::Secondary => {
                                    self.ability_secondary = ability;
                                },
                            }
                        }
                        self.state = PlayerState::Standing;
                    }
                }
                None
            },
            PlayerState::BuildPlacing(curr, max) => {
                if idle {
                    match intent {
                        Some(angle) => {
                            self.turn(angle);
                            self.state = PlayerState::Running;
                        },
                        None => {
                            self.state = PlayerState::Standing;
                        },
                    }
                    None
                } else if let Some(button) = held {
                    let building = match self.ability_in(button) {
                        Ability::Build => true,
                        _ => false,
                    };
                    if curr < max {
                        if let Some(angle) = intent {
                            self.turn(angle);
                        }
                        self.state = if building {
                            PlayerState::BuildPlacing(curr + 1, max)
                        } else {
                            PlayerState::Standing
                        };
                        None
                    } else {
                        let wall = if building {
                            Some(self.edge_to_build())
                        } else {
                            None
                        };
                        self.state = PlayerState::Standing;
                        wall
                    }
                } else {
                    None
                }
            },
            PlayerState::MeleeAttacking(_, _) => {
                self.state = PlayerState::Standing;
                None
            },
            PlayerState::RangeTargeting => {
                self.state = PlayerState::Standing;
                None
            },
            PlayerState::RangeAttacking(_, _) => {
                self.state = PlayerState::Standing;
                None
            },
            PlayerState::ButtonPressing(_, _) => {
                self.state = PlayerState::Standing;
                None
            },
            PlayerState::Repairing(_, _) => {
                self.state = PlayerState::Standing;
                None
            },
            PlayerState::Healing(_, _) => {
                self.state = PlayerState::Standing;
                None
            },
            PlayerState::BuildChoosing => None,
        }
    }
}

} // verus!
