//! The game's top-level states and what the main menu, the pause menu and
//! the Escape key do to them.

use vstd::prelude::*;

verus! {

/// Number of save slots.
pub const SAVE_SLOTS: usize = 4;

/// The game's top-level state.
#[derive(Clone, Copy, Debug, PartialEq, Eq, Structural)]
pub enum GameState {
    MainMenu,
    Playing,
    Paused,
    GameOver,
}

impl Default for GameState {
    fn default() -> (s: Self)
        ensures
            s == GameState::Playing,
    {
        GameState::Playing
    }
}

/// Escape toggles between playing and paused; it does nothing elsewhere.
pub fn pause_toggle(state: GameState) -> (next: Option<GameState>)
    ensures
        next == (match state {
            GameState::Playing => Some(GameState::Paused),
            GameState::Paused => Some(GameState::Playing),
            _ => None,
        }),
{
    match state {
        GameState::Playing => Some(GameState::Paused),
        GameState::Paused => Some(GameState::Playing),
        _ => None,
    }
}

/// The state after Escape.
pub open spec fn after_escape(state: GameState) -> GameState {
    match state {
        GameState::Playing => GameState::Paused,
        GameState::Paused => GameState::Playing,
        _ => state,
    }
}

/// Pressing Escape twice leaves the state as it was.
pub proof fn law_pause_toggle_twice(state: GameState)
    ensures
        after_escape(after_escape(state)) == state,
{
}

/// A button of the main menu.
#[derive(Clone, Copy, Debug, PartialEq, Eq, Structural)]
pub enum MainMenuButton {
    NewGame,
    LoadSlot(usize),
    Exit,
}

/// What a menu button press asks of the game.
#[derive(Clone, Copy, Debug, PartialEq, Eq, Structural)]
pub enum MenuOutcome {
    /// Start a new game and play.
    StartNewGame,
    /// Load this slot and play.
    Load(usize),
    /// Save into this slot.
    Save(usize),
    /// Return to playing.
    Resume,
    /// Go to the main menu.
    ToMainMenu,
    /// Quit the program.
    Exit,
    /// Nothing happens.
    Nothing,
}

/// The main menu: a new game, a load (only from a slot that holds a save),
/// or exit.
pub fn main_menu_action(button: MainMenuButton, slot_has_save: bool) -> (o: MenuOutcome)
    ensures
        o == (match button {
            MainMenuButton::NewGame => MenuOutcome::StartNewGame,
            MainMenuButton::LoadSlot(s) => if slot_has_save {
                MenuOutcome::Load(s)
            } else {
                MenuOutcome::Nothing
            },
            MainMenuButton::Exit => MenuOutcome::Exit,
        }),
{
    match button {
        MainMenuButton::NewGame => MenuOutcome::StartNewGame,
        MainMenuButton::LoadSlot(s) => if slot_has_save {
            MenuOutcome::Load(s)
        } else {
            MenuOutcome::Nothing
        },
        MainMenuButton::Exit => MenuOutcome::Exit,
    }
}

/// Which screen the pause menu shows.
#[derive(Clone, Copy, Debug, PartialEq, Eq, Structural)]
pub enum PauseScreen {
    Main,
    Save,
    Load,
}

impl Default for PauseScreen {
    fn default() -> (s: Self)
        ensures
            s == PauseScreen::Main,
    {
        PauseScreen::Main
    }
}

/// A button of the pause menu.
#[derive(Clone, Copy, Debug, PartialEq, Eq, Structural)]
pub enum PauseMenuButton {
    Continue,
    OpenSave,
    OpenLoad,
    BackToMenu,
    SaveSlot(usize),
    LoadSlot(usize),
    BackToPause,
}

/// The pause menu: what a press asks of the game, and the screen shown next.
pub fn pause_menu_action(button: PauseMenuButton, screen: PauseScreen, slot_has_save: bool) -> (r: (
    MenuOutcome,
    PauseScreen,
))
    ensures
        r == (match button {
            PauseMenuButton::Continue => (MenuOutcome::Resume, screen),
            PauseMenuButton::OpenSave => (MenuOutcome::Nothing, PauseScreen::Save),
            PauseMenuButton::OpenLoad => (MenuOutcome::Nothing, PauseScreen::Load),
            PauseMenuButton::BackToPause => (MenuOutcome::Nothing, PauseScreen::Main),
            PauseMenuButton::SaveSlot(s) => (MenuOutcome::Save(s), screen),
            PauseMenuButton::LoadSlot(s) => (if slot_has_save {
                MenuOutcome::Load(s)
            } else {
                MenuOutcome::Nothing
            }, screen),
            PauseMenuButton::BackToMenu => (MenuOutcome::ToMainMenu, screen),
        }),
{
    match button {
        PauseMenuButton::Continue => (MenuOutcome::Resume, screen),
        PauseMenuButton::OpenSave => (MenuOutcome::Nothing, PauseScreen::Save),
        PauseMenuButton::OpenLoad => (MenuOutcome::Nothing, PauseScreen::Load),
        PauseMenuButton::BackToPause => (MenuOutcome::Nothing, PauseScreen::Main),
        PauseMenuButton::SaveSlot(s) => (MenuOutcome::Save(s), screen),
        PauseMenuButton::LoadSlot(s) => (if slot_has_save {
            MenuOutcome::Load(s)
        } else {
            MenuOutcome::Nothing
        }, screen),
        PauseMenuButton::BackToMenu => (MenuOutcome::ToMainMenu, screen),
    }
}

/// The state a menu outcome leads to, from `state`.
pub fn state_after(outcome: MenuOutcome, state: GameState) -> (s: GameState)
    ensures
        s == (match outcome {
            MenuOutcome::StartNewGame | MenuOutcome::Load(_) | MenuOutcome::Resume => GameState::Playing,
            MenuOutcome::ToMainMenu => GameState::MainMenu,
            _ => state,
        }),
{
    match outcome {
        MenuOutcome::StartNewGame | MenuOutcome::Load(_) | MenuOutcome::Resume => GameState::Playing,
        MenuOutcome::ToMainMenu => GameState::MainMenu,
        _ => state,
    }
}

} // verus!
