//! The connection's protocol state, the server's difficulty, and the client's input state
//! machine: which screen has the keyboard and mouse, and how key presses move between them.
use vstd::prelude::*;

verus! {

/// The stage of the protocol a connection is in; it decides how a packet's ID is read.
#[derive(Debug, Clone, Copy, PartialEq, Eq, Structural)]
pub enum ServerState {
    Status,
    Login,
    Play,
}

/// The difficulty the server plays at.
#[derive(Debug, Clone, Copy, PartialEq, Eq, Structural)]
pub enum Difficulty {
    Peaceful,
    Easy,
    Medium,
    Hard,
}

/// The difficulty a `ServerDifficulty` packet's byte stands for: `1` easy, `2` medium,
/// `3` hard, anything else peaceful.
pub open spec fn difficulty_of(b: u8) -> Difficulty {
    if b == 1 {
        Difficulty::Easy
    } else if b == 2 {
        Difficulty::Medium
    } else if b == 3 {
        Difficulty::Hard
    } else {
        Difficulty::Peaceful
    }
}

impl Difficulty {
    /// The difficulty a `ServerDifficulty` packet's byte stands for.
    pub fn from_byte(b: u8) -> (d: Difficulty)
        ensures
            d == difficulty_of(b),
    {
        match b {
            1 => Difficulty::Easy,
            2 => Difficulty::Medium,
            3 => Difficulty::Hard,
            _ => Difficulty::Peaceful,
        }
    }
}

/// What has the player's input while connected to a server.
///
/// `Playing` - the player moves and looks around; the mouse is grabbed.
/// `Paused` - the pause menu is open; the mouse is free.
/// `ShowingInfo` - the info windows are shown while the player keeps playing.
/// `InteractingInfo` - the info windows are shown and the mouse can use them.
/// `ChatOpen` - the chat is open for typing; the mouse is free.
#[derive(Debug, Clone, Copy, PartialEq, Eq, Structural)]
pub enum InputState {
    Playing,
    Paused,
    ShowingInfo,
    InteractingInfo,
    ChatOpen,
}

/// What the player chose in the pause menu during one frame.
#[derive(Debug, Clone, Copy, PartialEq, Eq, Structural)]
pub enum PauseAction {
    Nothing,
    Disconnect,
    Unpause,
}

/// The keys and buttons of one frame that the input state machine looks at.
#[derive(Debug, Clone, Copy)]
pub struct InputEvents {
    /// Escape was pressed this frame.
    pub escape_pressed: bool,
    /// T was pressed this frame.
    pub t_pressed: bool,
    /// Slash was pressed this frame.
    pub slash_pressed: bool,
    /// Tab was pressed this frame.
    pub tab_pressed: bool,
    /// Tab was released this frame.
    pub tab_released: bool,
    /// The left mouse button was pressed this frame.
    pub left_click: bool,
    /// Return was pressed this frame.
    pub return_pressed: bool,
}

/// What a change of input state asks of the client besides the new state.
#[derive(Debug, Clone, Copy, PartialEq, Eq, Structural)]
pub enum InputEffect {
    /// Nothing more.
    Nothing,
    /// Start the chat's message with a slash, for a command.
    StartCommand,
    /// Take the chat's message, clear it, and send it when it is not empty.
    SubmitChat,
}

/// The input state after one frame in `state` with the events `ev`, and what it asks of
/// the client. The first event that matches, in the order below, decides.
pub open spec fn input_step(state: InputState, ev: InputEvents) -> (InputState, InputEffect) {
    match state {
        InputState::Playing => if ev.escape_pressed {
            (InputState::Paused, InputEffect::Nothing)
        } else if ev.t_pressed {
            (InputState::ChatOpen, InputEffect::Nothing)
        } else if ev.slash_pressed {
            (InputState::ChatOpen, InputEffect::StartCommand)
        } else if ev.tab_pressed {
            (InputState::ShowingInfo, InputEffect::Nothing)
        } else {
            (InputState::Playing, InputEffect::Nothing)
        },
        InputState::Paused => if ev.escape_pressed {
            (InputState::Playing, InputEffect::Nothing)
        } else {
            (InputState::Paused, InputEffect::Nothing)
        },
        InputState::ShowingInfo => if ev.escape_pressed {
            (InputState::Paused, InputEffect::Nothing)
        } else if ev.left_click {
            (InputState::InteractingInfo, InputEffect::Nothing)
        } else if ev.tab_released {
            (InputState::Playing, InputEffect::Nothing)
        } else {
            (InputState::ShowingInfo, InputEffect::Nothing)
        },
        InputState::InteractingInfo => if ev.escape_pressed {
            (InputState::Paused, InputEffect::Nothing)
        } else if ev.tab_released {
            (InputState::Playing, InputEffect::Nothing)
        } else {
            (InputState::InteractingInfo, InputEffect::Nothing)
        },
        InputState::ChatOpen => if ev.escape_pressed {
            (InputState::Playing, InputEffect::Nothing)
        } else if ev.return_pressed {
            (InputState::Playing, InputEffect::SubmitChat)
        } else {
            (InputState::ChatOpen, InputEffect::Nothing)
        },
    }
}

impl InputState {
    /// Whether the mouse is grabbed in this state: while playing, with or without the
    /// info windows shown.
    pub fn should_grab_mouse(&self) -> (b: bool)
        ensures
            b <==> (*self == InputState::Playing || *self == InputState::ShowingInfo),
    {
        match self {
            InputState::Playing => true,
            InputState::Paused => false,
            InputState::ShowingInfo => true,
            InputState::InteractingInfo => false,
            InputState::ChatOpen => false,
        }
    }

    /// Whether the keyboard moves the player in this state.
    pub fn moves_with_keyboard(&self) -> (b: bool)
        ensures
            b <==> (*self == InputState::Playing || *self == InputState::ShowingInfo || *self
                == InputState::InteractingInfo),
    {
        match self {
            InputState::Playing | InputState::ShowingInfo | InputState::InteractingInfo => true,
            _ => false,
        }
    }

    /// Whether the mouse turns the player in this state.
    pub fn looks_with_mouse(&self) -> (b: bool)
        ensures
            b <==> (*self == InputState::Playing || *self == InputState::ShowingInfo),
    {
        match self {
            InputState::Playing | InputState::ShowingInfo => true,
            _ => false,
        }
    }

    /// Whether the pause menu is open.
    pub fn is_paused(&self) -> (b: bool)
        ensures
            b <==> *self == InputState::Paused,
    {
        match self {
            InputState::Paused => true,
            _ => false,
        }
    }

    /// The state after one frame with the events `ev`, and what it asks of the client.
    pub fn step(&self, ev: &InputEvents) -> (res: (InputState, InputEffect))
        ensures
            res == input_step(*self, *ev),
    {
        match self {
            InputState::Playing => if ev.escape_pressed {
                (InputState::Paused, InputEffect::Nothing)
            } else if ev.t_pressed {
                (InputState::ChatOpen, InputEffect::Nothing)
            } else if ev.slash_pressed {
                (InputState::ChatOpen, InputEffect::StartCommand)
            } else if ev.tab_pressed {
                (InputState::ShowingInfo, InputEffect::Nothing)
            } else {
                (InputState::Playing, InputEffect::Nothing)
            },
            InputState::Paused => if ev.escape_pressed {
                (InputState::Playing, InputEffect::Nothing)
            } else {
                (InputState::Paused, InputEffect::Nothing)
            },
            InputState::ShowingInfo => if ev.escape_pressed {
                (InputState::Paused, InputEffect::Nothing)
            } else if ev.left_click {
                (InputState::InteractingInfo, InputEffect::Nothing)
            } else if ev.tab_released {
                (InputState::Playing, InputEffect::Nothing)
            } else {
                (InputState::ShowingInfo, InputEffect::Nothing)
            },
            InputState::InteractingInfo => if ev.escape_pressed {
                (InputState::Paused, InputEffect::Nothing)
            } else if ev.tab_released {
                (InputState::Playing, InputEffect::Nothing)
            } else {
                (InputState::InteractingInfo, InputEffect::Nothing)
            },
            InputState::ChatOpen => if ev.escape_pressed {
                (InputState::Playing, InputEffect::Nothing)
            } else if ev.return_pressed {
                (InputState::Playing, InputEffect::SubmitChat)
            } else {
                (InputState::ChatOpen, InputEffect::Nothing)
            },
        }
    }

    /// The state after the pause menu reported `action`, and whether to disconnect. The
    /// menu only acts while the game is paused.
    pub fn after_pause_action(&self, action: PauseAction) -> (res: (InputState, bool))
        ensures
            *self != InputState::Paused ==> res == (*self, false),
            *self == InputState::Paused ==> res == (match action {
                PauseAction::Nothing => (InputState::Paused, false),
                PauseAction::Disconnect => (InputState::Paused, true),
                PauseAction::Unpause => (InputState::Playing, false),
            }),
    {
        match self {
            InputState::Paused => match action {
                PauseAction::Nothing => (InputState::Paused, false),
                PauseAction::Disconnect => (InputState::Paused, true),
                PauseAction::Unpause => (InputState::Playing, false),
            },
            _ => (*self, false),
        }
    }
}

/// Escape always leaves the current screen: it pauses any state but the pause menu and
/// the chat, and it closes those two back to playing.
pub proof fn law_escape_leaves_screen(state: InputState, ev: InputEvents)
    requires
        ev.escape_pressed,
    ensures
        input_step(state, ev).0 == (if state == InputState::Paused || state == InputState::ChatOpen {
            InputState::Playing
        } else {
            InputState::Paused
        }),
        input_step(state, ev).1 == InputEffect::Nothing,
{
}

/// Pressing escape twice from playing comes back to playing.
pub proof fn law_escape_twice_resumes(ev: InputEvents)
    requires
        ev.escape_pressed,
    ensures
        input_step(input_step(InputState::Playing, ev).0, ev).0 == InputState::Playing,
{
}

/// A frame with no events leaves every state as it was and asks for nothing.
pub proof fn law_quiet_frame_keeps_state(state: InputState, ev: InputEvents)
    requires
        !ev.escape_pressed,
        !ev.t_pressed,
        !ev.slash_pressed,
        !ev.tab_pressed,
        !ev.tab_released,
        !ev.left_click,
        !ev.return_pressed,
    ensures
        input_step(state, ev) == (state, InputEffect::Nothing),
{
}

/// Only the chat's state submits a message, and it always returns to playing when it does.
pub proof fn law_submit_only_from_chat(state: InputState, ev: InputEvents)
    requires
        input_step(state, ev).1 == InputEffect::SubmitChat,
    ensures
        state == InputState::ChatOpen,
        input_step(state, ev).0 == InputState::Playing,
{
}

/// The pause menu waits for Escape: in a frame without Escape it stays open and asks for
/// nothing, whatever other keys are pressed.
pub proof fn law_pause_menu_waits_for_escape(ev: InputEvents)
    requires
        !ev.escape_pressed,
    ensures
        input_step(InputState::Paused, ev) == (InputState::Paused, InputEffect::Nothing),
{
}

/// The chat opens only from playing: T opens it plain, Slash opens it for a command, and
/// no other state opens it.
pub proof fn law_chat_opens_only_from_playing(state: InputState, ev: InputEvents)
    requires
        state != InputState::ChatOpen,
        input_step(state, ev).0 == InputState::ChatOpen,
    ensures
        state == InputState::Playing,
        !ev.escape_pressed,
        ev.t_pressed || ev.slash_pressed,
        input_step(state, ev).1 == (if ev.t_pressed {
            InputEffect::Nothing
        } else {
            InputEffect::StartCommand
        }),
{
}

/// The open chat stays open until Escape or Return: any other keys leave it open and ask
/// for nothing.
pub proof fn law_chat_waits_for_escape_or_return(ev: InputEvents)
    requires
        !ev.escape_pressed,
        !ev.return_pressed,
    ensures
        input_step(InputState::ChatOpen, ev) == (InputState::ChatOpen, InputEffect::Nothing),
{
}

/// The pause menu is reached only by Escape.
pub proof fn law_pause_only_by_escape(state: InputState, ev: InputEvents)
    requires
        state != InputState::Paused,
        input_step(state, ev).0 == InputState::Paused,
    ensures
        ev.escape_pressed,
{
}

} // verus!
