//! The state behind the game's screens: which mode the game is in, the rule
//! rows that the player edits, and the decisions of the battle screen.

use vstd::prelude::*;

verus! {

/// The game's mode.
#[derive(Clone, Copy, Debug, PartialEq, Eq, Structural)]
pub enum GameMode {
    RuleCreation,
    Battle,
}

/// The game's state.
#[derive(Debug)]
pub struct GameState {
    pub mode: GameMode,
}

impl GameState {
    /// A game that starts in rule creation.
    pub fn new() -> (r: Self)
        ensures
            r.mode == GameMode::RuleCreation,
    {
        GameState { mode: GameMode::RuleCreation }
    }

    pub fn switch_to_battle(&mut self)
        ensures
            final(self).mode == GameMode::Battle,
    {
        self.mode = GameMode::Battle;
    }

    pub fn switch_to_rule_creation(&mut self)
        ensures
            final(self).mode == GameMode::RuleCreation,
    {
        self.mode = GameMode::RuleCreation;
    }

    pub fn is_battle_mode(&self) -> (r: bool)
        ensures
            r == (self.mode == GameMode::Battle),
    {
        self.mode == GameMode::Battle
    }

    pub fn is_rule_creation_mode(&self) -> (r: bool)
        ensures
            r == (self.mode == GameMode::RuleCreation),
    {
        self.mode == GameMode::RuleCreation
    }
}

impl Default for GameState {
    fn default() -> (r: Self)
        ensures
            r.mode == GameMode::RuleCreation,
    {
        Self::new()
    }
}

/// A token of the rule editor's rows.
#[derive(Clone, Copy, Debug, PartialEq, Eq, Structural)]
pub enum FlatTokenInput {
    Strike,
    Heal,
    Check,
    TrueOrFalseRandom,
    GreaterThan,
    LessThan,
    Eq,
    ActingCharacter,
    AllCharacters,
    CharacterToHp,
    CharacterHpToCharacter,
    RandomPick,
    FilterList,
    MapList,
    Element,
    CharacterTeam,
    TeamMembers,
    AllTeamSides,
    Enemy,
    Hero,
    Number(i32),
    Max,
    Min,
    NumericMax,
    NumericMin,
}

/// The rule rows being edited, and the selected row.
#[derive(Debug)]
pub struct CurrentRules {
    pub rules: Vec<Vec<FlatTokenInput>>,
    pub selected_row: usize,
}

/// The rows by value.
pub open spec fn rows_of(rules: Seq<Vec<FlatTokenInput>>) -> Seq<Seq<FlatTokenInput>> {
    rules.map_values(|r: Vec<FlatTokenInput>| r@)
}

/// The number of non-empty rows.
pub open spec fn non_empty_count(rows: Seq<Seq<FlatTokenInput>>) -> nat
    decreases rows.len(),
{
    if rows.len() == 0 {
        0
    } else {
        non_empty_count(rows.drop_last()) + if rows.last().len() > 0 { 1nat } else { 0nat }
    }
}

/// The rows a new editor starts with: one default rule and four empty rows.
pub open spec fn default_rows() -> Seq<Seq<FlatTokenInput>> {
    seq![
        seq![FlatTokenInput::Strike, FlatTokenInput::RandomPick, FlatTokenInput::AllCharacters],
        seq![],
        seq![],
        seq![],
        seq![],
    ]
}

impl CurrentRules {
    /// The selected row lies within the rows (or is the first when there are
    /// none).
    pub open spec fn selection_valid(self) -> bool {
        self.selected_row < self.rules@.len() || self.selected_row == 0
    }

    /// One default rule and four empty rows, the first selected.
    pub fn new() -> (r: Self)
        ensures
            rows_of(r.rules@) == default_rows(),
            r.selected_row == 0,
    {
        let r = CurrentRules {
            rules: vec![
                vec![FlatTokenInput::Strike, FlatTokenInput::RandomPick, FlatTokenInput::AllCharacters],
                Vec::new(),
                Vec::new(),
                Vec::new(),
                Vec::new(),
            ],
            selected_row: 0,
        };
        assert(rows_of(r.rules@) =~= default_rows()) by {
            assert(r.rules@[0]@ =~= default_rows()[0]);
        }
        r
    }

    /// The given rows, the first selected.
    pub fn with_rules(rules: Vec<Vec<FlatTokenInput>>) -> (r: Self)
        ensures
            r.rules@ == rules@,
            r.selected_row == 0,
    {
        CurrentRules { rules, selected_row: 0 }
    }

    /// Appends `token` to the selected row.
    pub fn add_token_to_current_row(&mut self, token: FlatTokenInput)
        ensures
            old(self).selection_valid() ==> final(self).selection_valid(),
            final(self).selected_row == old(self).selected_row,
            old(self).selected_row < old(self).rules@.len() ==> rows_of(final(self).rules@)
                == rows_of(old(self).rules@).update(old(self).selected_row as int,
                    rows_of(old(self).rules@)[old(self).selected_row as int].push(token)),
            old(self).selected_row >= old(self).rules@.len() ==> final(self).rules@ == old(self).rules@,
    {
        if self.selected_row < self.rules.len() {
            let mut row: Vec<FlatTokenInput> = Vec::new();
            std::mem::swap(&mut row, &mut self.rules[self.selected_row]);
            row.push(token);
            self.rules.set(self.selected_row, row);
            assert(rows_of(self.rules@) =~= rows_of(old(self).rules@).update(old(self).selected_row as int,
                rows_of(old(self).rules@)[old(self).selected_row as int].push(token)));
        }
    }

    /// Removes the last token of the selected row, if any.
    pub fn remove_last_token_from_current_row(&mut self)
        ensures
            old(self).selection_valid() ==> final(self).selection_valid(),
            final(self).selected_row == old(self).selected_row,
            old(self).selected_row < old(self).rules@.len() ==> rows_of(final(self).rules@)
                == rows_of(old(self).rules@).update(old(self).selected_row as int, {
                    let row = rows_of(old(self).rules@)[old(self).selected_row as int];
                    if row.len() > 0 { row.drop_last() } else { row }
                }),
            old(self).selected_row >= old(self).rules@.len() ==> final(self).rules@ == old(self).rules@,
    {
        if self.selected_row < self.rules.len() {
            let mut row: Vec<FlatTokenInput> = Vec::new();
            std::mem::swap(&mut row, &mut self.rules[self.selected_row]);
            let ghost before = row@;
            row.pop();
            self.rules.set(self.selected_row, row);
            assert(rows_of(self.rules@) =~= rows_of(old(self).rules@).update(old(self).selected_row as int, {
                if before.len() > 0 { before.drop_last() } else { before }
            }));
        }
    }

    /// Empties the selected row.
    pub fn clear_current_row(&mut self)
        ensures
            old(self).selection_valid() ==> final(self).selection_valid(),
            final(self).selected_row == old(self).selected_row,
            old(self).selected_row < old(self).rules@.len() ==> rows_of(final(self).rules@)
                == rows_of(old(self).rules@).update(old(self).selected_row as int, Seq::<FlatTokenInput>::empty()),
            old(self).selected_row >= old(self).rules@.len() ==> final(self).rules@ == old(self).rules@,
    {
        if self.selected_row < self.rules.len() {
            self.rules.set(self.selected_row, Vec::new());
            assert(rows_of(self.rules@) =~= rows_of(old(self).rules@).update(old(self).selected_row as int,
                Seq::<FlatTokenInput>::empty()));
        }
    }

    /// Empties every row and selects the first.
    pub fn clear_all(&mut self)
        ensures
            old(self).selection_valid() ==> final(self).selection_valid(),
            final(self).rules@.len() == old(self).rules@.len(),
            forall|i: int| 0 <= i < final(self).rules@.len() ==> (#[trigger] final(self).rules@[i])@.len() == 0,
            final(self).selected_row == 0,
    {
        let n = self.rules.len();
        let mut i: usize = 0;
        while i < n
            invariant
                n == self.rules@.len(),
                n == old(self).rules@.len(),
                i <= n,
                forall|j: int| 0 <= j < i ==> (#[trigger] self.rules@[j])@.len() == 0,
            decreases n - i,
        {
            self.rules.set(i, Vec::new());
            i += 1;
        }
        self.selected_row = 0;
    }

    /// Selects row `row` when there is one.
    pub fn select_row(&mut self, row: usize)
        ensures
            old(self).selection_valid() ==> final(self).selection_valid(),
            final(self).rules@ == old(self).rules@,
            final(self).selected_row == (if row < old(self).rules@.len() { row } else { old(self).selected_row }),
    {
        if row < self.rules.len() {
            self.selected_row = row;
        }
    }

    /// Selects the next row when there is one.
    pub fn select_next_row(&mut self)
        ensures
            old(self).selection_valid() ==> final(self).selection_valid(),
            final(self).rules@ == old(self).rules@,
            final(self).selected_row == (if old(self).selected_row + 1 < old(self).rules@.len() {
                old(self).selected_row + 1
            } else {
                old(self).selected_row as int
            }),
    {
        if self.selected_row < self.rules.len() && self.selected_row + 1 < self.rules.len() {
            self.selected_row = self.selected_row + 1;
        }
    }

    /// Selects the previous row when there is one.
    pub fn select_previous_row(&mut self)
        ensures
            old(self).selection_valid() ==> final(self).selection_valid(),
            final(self).rules@ == old(self).rules@,
            final(self).selected_row == (if old(self).selected_row > 0 {
                old(self).selected_row - 1
            } else {
                0
            }),
    {
        if self.selected_row > 0 {
            self.selected_row = self.selected_row - 1;
        }
    }

    /// Whether the selected row is empty (a missing row counts as empty).
    pub fn is_current_row_empty(&self) -> (r: bool)
        ensures
            r == (self.selected_row >= self.rules@.len() || self.rules@[self.selected_row as int]@.len() == 0),
    {
        if self.selected_row < self.rules.len() {
            self.rules[self.selected_row].len() == 0
        } else {
            true
        }
    }

    /// The number of non-empty rows.
    pub fn non_empty_rule_count(&self) -> (r: usize)
        ensures
            r == non_empty_count(rows_of(self.rules@)),
    {
        let ghost rows = rows_of(self.rules@);
        let mut count: usize = 0;
        let mut i: usize = 0;
        assert(rows.take(0) =~= Seq::<Seq<FlatTokenInput>>::empty());
        while i < self.rules.len()
            invariant
                rows == rows_of(self.rules@),
                i <= self.rules@.len(),
                count == non_empty_count(rows.take(i as int)),
                count <= i,
            decreases self.rules@.len() - i,
        {
            assert(rows.take(i + 1).drop_last() =~= rows.take(i as int));
            if self.rules[i].len() > 0 {
                count = count + 1;
            }
            i += 1;
        }
        assert(rows.take(self.rules@.len() as int) =~= rows);
        count
    }

    /// Whether at least one row is non-empty.
    pub fn has_valid_rules(&self) -> (r: bool)
        ensures
            r == (non_empty_count(rows_of(self.rules@)) > 0),
    {
        self.non_empty_rule_count() > 0
    }
}

impl Default for CurrentRules {
    fn default() -> (r: Self)
        ensures
            r.rules@.len() == 0,
            r.selected_row == 0,
    {
        CurrentRules { rules: Vec::new(), selected_row: 0 }
    }
}

/// The decisions of the battle screen.
pub struct BattleOrchestrator;

impl BattleOrchestrator {
    /// Whether a new battle starts: the mode just changed, to battle.
    pub fn should_start_new_battle(game_state: &GameState, is_changed: bool) -> (r: bool)
        ensures
            r == (is_changed && game_state.mode == GameMode::Battle),
    {
        is_changed && game_state.mode == GameMode::Battle
    }

    /// Whether the battle restarts: it is over and Shift is pressed.
    pub fn should_restart_battle(battle_over: bool, shift_pressed: bool) -> (r: bool)
        ensures
            r == (battle_over && shift_pressed),
    {
        battle_over && shift_pressed
    }

    /// Whether a turn runs: in battle mode, the battle not over, Space pressed.
    pub fn should_execute_turn(game_state: &GameState, battle_over: bool, space_pressed: bool) -> (r: bool)
        ensures
            r == (game_state.mode == GameMode::Battle && !battle_over && space_pressed),
    {
        game_state.mode == GameMode::Battle && !battle_over && space_pressed
    }

    /// The battle panel's text key: one in rule creation, none in battle.
    pub fn get_battle_ui_text(game_state: &GameState) -> (r: Option<&'static str>)
        ensures
            match game_state.mode {
                GameMode::RuleCreation => r matches Some(t) && t@ == "rule_creation_mode"@,
                GameMode::Battle => r is None,
            },
    {
        match game_state.mode {
            GameMode::RuleCreation => Some("rule_creation_mode"),
            GameMode::Battle => None,
        }
    }

    /// The log panel's text key: one in rule creation, none in battle.
    pub fn get_log_ui_text(game_state: &GameState) -> (r: Option<&'static str>)
        ensures
            match game_state.mode {
                GameMode::RuleCreation => r matches Some(t) && t@ == "rule_creation_log"@,
                GameMode::Battle => r is None,
            },
    {
        match game_state.mode {
            GameMode::RuleCreation => Some("rule_creation_log"),
            GameMode::Battle => None,
        }
    }
}

} // verus!
