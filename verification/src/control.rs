//! The decision half of input handling: what each decoded command does to
//! the viewer and to the game loop. Decoding raw keys into commands is the
//! caller's concern.

use vstd::prelude::*;

use crate::grid::Game;
use crate::object::Object;

verus! {

/// A decoded player command.
#[derive(Clone, Copy, Debug, PartialEq, Eq, Structural)]
pub enum Command {
    MoveUp,
    MoveDown,
    MoveLeft,
    MoveRight,
    /// Window-mode toggling and similar: handled entirely by the caller,
    /// a no-op for the core state.
    ToggleFullscreen,
    Exit,
    Nothing,
}

/// The movement delta of a command, `(0, 0)` for every non-movement one.
pub open spec fn command_delta(cmd: Command) -> (int, int) {
    match cmd {
        Command::MoveUp => (0, -1),
        Command::MoveDown => (0, 1),
        Command::MoveLeft => (-1, 0),
        Command::MoveRight => (1, 0),
        _ => (0, 0),
    }
}

/// Applies one command to the viewer: movement commands move it by one tile
/// subject to `move_by`'s blocking rules, `Exit` requests leaving the loop,
/// and everything else changes nothing. Returns true iff the caller should
/// exit.
pub fn handle_command(cmd: Command, game: &Game, player: &mut Object) -> (exit: bool)
    requires
        game.wf(),
        game.width() <= i32::MAX,
        game.height() <= i32::MAX,
    ensures
        exit == (cmd == Command::Exit),
        ({
            let dx = command_delta(cmd).0;
            let dy = command_delta(cmd).1;
            let nx = old(player).x + dx;
            let ny = old(player).y + dy;
            if 0 <= nx < game.width() && 0 <= ny < game.height() && !game.tile_at(nx, ny).blocked {
                final (player).x == nx && final (player).y == ny
            } else {
                final (player).x == old(player).x && final (player).y == old(player).y
            }
        }),
        final (player).char == old(player).char,
        final (player).color == old(player).color,
        final (player).name == old(player).name,
        final (player).blocks == old(player).blocks,
        final (player).alive == old(player).alive,
{
    match cmd {
        Command::MoveUp => {
            player.move_by(0, -1, game);
            false
        },
        Command::MoveDown => {
            player.move_by(0, 1, game);
            false
        },
        Command::MoveLeft => {
            player.move_by(-1, 0, game);
            false
        },
        Command::MoveRight => {
            player.move_by(1, 0, game);
            false
        },
        Command::ToggleFullscreen => false,
        Command::Exit => true,
        Command::Nothing => false,
    }
}

} // verus!
