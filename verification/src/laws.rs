//! What holds of the game whatever commands are given.
//!
//! Each law is stated over the mathematical [`Game`] and proved. The
//! executable commands are specified to compute exactly [`Game::after`], so
//! the laws hold of them.

use vstd::prelude::*;
use crate::game::{lemma_after_wf, Command, Game, MIN_PLAYERS};
use crate::saved::SavedGameView;
use crate::score::Score;
use crate::sheet::{
    blank_row, in_sheet, is_complete, is_cursor, lemma_next_unfilled, lemma_with_cursor,
    next_unfilled, no_cursor, single_cursor, values, with_cursor,
};

verus! {

/// The game after a sequence of commands was given, first to last.
pub open spec fn after_all(game: Game, commands: Seq<Command>) -> Game
    decreases commands.len(),
{
    if commands.len() == 0 {
        game
    } else {
        after_all(game, commands.drop_last()).after(commands.last())
    }
}

/// How many commands of the sequence are additions of a player that were
/// accepted when their turn came.
pub open spec fn additions(game: Game, commands: Seq<Command>) -> nat
    decreases commands.len(),
{
    if commands.len() == 0 {
        0
    } else {
        let before = after_all(game, commands.drop_last());
        let last = commands.last();
        additions(game, commands.drop_last()) + if last is PlayerAdd && before.refuses(last)
            is None {
            1nat
        } else {
            0nat
        }
    }
}

/// How many commands of the sequence are removals of a player that were
/// accepted when their turn came.
pub open spec fn removals(game: Game, commands: Seq<Command>) -> nat
    decreases commands.len(),
{
    if commands.len() == 0 {
        0
    } else {
        let before = after_all(game, commands.drop_last());
        let last = commands.last();
        removals(game, commands.drop_last()) + if last is PlayerRemove && before.refuses(last)
            is None {
            1nat
        } else {
            0nat
        }
    }
}

/// The command adds or removes a player.
pub open spec fn is_roster_command(command: Command) -> bool {
    command is PlayerAdd || command is PlayerRemove
}

/// No sequence of commands leads out of the well-formed games.
pub proof fn law_well_formed_forever(game: Game, commands: Seq<Command>)
    requires
        game.wf(),
    ensures
        after_all(game, commands).wf(),
    decreases commands.len(),
{
    if commands.len() > 0 {
        law_well_formed_forever(game, commands.drop_last());
        lemma_after_wf(after_all(game, commands.drop_last()), commands.last());
    }
}

/// Before the start, after any sequence of additions and removals, the
/// roster has grown by the accepted additions and shrunk by the accepted
/// removals, the game has still not started, and there is no round.
pub proof fn law_roster_size(game: Game, commands: Seq<Command>)
    requires
        game.wf(),
        !game.started,
        forall|i: int| 0 <= i < commands.len() ==> is_roster_command(#[trigger] commands[i]),
    ensures
        after_all(game, commands).players.len() + removals(game, commands) == game.players.len()
            + additions(game, commands),
        !after_all(game, commands).started,
        after_all(game, commands).rounds.len() == 0,
    decreases commands.len(),
{
    if commands.len() > 0 {
        let earlier = commands.drop_last();
        law_roster_size(game, earlier);
        law_well_formed_forever(game, earlier);
    }
}

/// How many commands of the sequence ask for a player to be added.
pub open spec fn addition_attempts(commands: Seq<Command>) -> nat
    decreases commands.len(),
{
    if commands.len() == 0 {
        0
    } else {
        addition_attempts(commands.drop_last()) + if commands.last() is PlayerAdd {
            1nat
        } else {
            0nat
        }
    }
}

/// Before the start an addition is refused for an empty name only: in a
/// sequence of additions and removals where every name has at least one
/// character, every addition is accepted.
pub proof fn law_named_additions_accepted(game: Game, commands: Seq<Command>)
    requires
        game.wf(),
        !game.started,
        forall|i: int| 0 <= i < commands.len() ==> is_roster_command(#[trigger] commands[i]),
        forall|i: int|
            0 <= i < commands.len() ==> (#[trigger] commands[i] matches Command::PlayerAdd(name)
                ==> name.len() > 0),
    ensures
        additions(game, commands) == addition_attempts(commands),
    decreases commands.len(),
{
    if commands.len() > 0 {
        let earlier = commands.drop_last();
        law_named_additions_accepted(game, earlier);
        law_roster_size(game, earlier);
    }
}

/// An empty name and a position outside the roster change nothing.
pub proof fn law_roster_refusals(game: Game, name: Seq<char>, idx: int)
    requires
        !game.started,
    ensures
        name.len() == 0 ==> game.after(Command::PlayerAdd(name)) == game,
        name.len() > 0 ==> game.after(Command::PlayerAdd(name)).players.len()
            == game.players.len() + 1,
        !(0 <= idx < game.players.len()) ==> game.after(Command::PlayerRemove(idx)) == game,
        0 <= idx < game.players.len() ==> game.after(Command::PlayerRemove(idx)).players.len()
            == game.players.len() - 1,
{
}

/// Starting a game that has not begun, with a roster of two or more,
/// gives exactly one round with one cell per player: the first cell is
/// being edited, no other is, and none holds a value.
pub proof fn law_start(game: Game)
    requires
        !game.started,
        game.players.len() >= MIN_PLAYERS,
    ensures
        game.refuses(Command::GameStart) is None,
        game.after(Command::GameStart).started,
        game.after(Command::GameStart).players == game.players,
        game.after(Command::GameStart).rounds.len() == 1,
        game.after(Command::GameStart).rounds[0].len() == game.players.len(),
        forall|p: int|
            0 <= p < game.players.len() ==> #[trigger] game.after(Command::GameStart).rounds[0][p]
                == (Score { val: None, is_editing: p == 0 }),
        game.after(Command::GameStart).focused() == Some((0int, 0int)),
{
    lemma_with_cursor(seq![blank_row(game.players.len())], Some((0, 0)));
}

/// The roster does not change while a game is running, whatever command
/// is given.
pub proof fn law_roster_frozen(game: Game, command: Command)
    requires
        game.started,
    ensures
        game.after(command).players == game.players,
{
}

/// No command changes the target score.
pub proof fn law_target_kept(game: Game, command: Command)
    ensures
        game.after(command).target == game.target,
{
}

/// A refused command changes nothing, and every command is either refused
/// or carried out.
pub proof fn law_refused_changes_nothing(game: Game, command: Command)
    ensures
        game.refuses(command) is Some ==> game.after(command) == game,
        game.refuses(command) is None ==> game.after(command) == game.carried_out(command),
{
}

/// The score sheet only grows, and what was written stays: unless the game
/// is called off, no command removes a round, changes the width of one, or
/// changes a value other than the one it enters.
pub proof fn law_rounds_append_only(game: Game, command: Command)
    requires
        game.wf(),
        !(command is GameNew),
    ensures
        game.rounds.len() <= game.after(command).rounds.len(),
        forall|r: int|
            0 <= r < game.rounds.len() ==> (#[trigger] game.after(command).rounds[r]).len()
                == game.rounds[r].len(),
        forall|r: int, p: int|
            in_sheet(game.rounds, r, p) && !(command matches Command::ScoreEnter(er, ep, _) && er
                == r && ep == p) ==> (#[trigger] game.after(command).rounds[r][p]).val
                == game.rounds[r][p].val,
{
    if game.refuses(command) is None {
        match command {
            Command::ScoreEnter(r, p, v) => {
                law_values_after_score(game, r, p, v);
                lemma_after_wf(game, command);
            },
            _ => {},
        }
    }
}

/// After a score was entered, at most one cell is being edited, and if one
/// is, it is either an unfilled cell of the same round further right, with
/// every cell in between filled, or the first cell of a round that was just
/// appended and is as wide as the round before it.
pub proof fn law_cursor_after_score(game: Game, r: int, p: int, v: i8)
    requires
        game.wf(),
        game.refuses(Command::ScoreEnter(r, p, v)) is None,
    ensures
        ({
            let next = game.after(Command::ScoreEnter(r, p, v));
            let n = game.rounds.len() as int;
            &&& single_cursor(next.rounds)
            &&& next.rounds.len() == n || next.rounds.len() == n + 1
            &&& forall|i: int, j: int| #[trigger]
                is_cursor(next.rounds, i, j) ==> {
                    ||| {
                        &&& next.rounds.len() == n
                        &&& i == r
                        &&& p < j
                        &&& next.rounds[r][j].val is None
                        &&& forall|k: int| p < k < j ==> (#[trigger] next.rounds[r][k]).val is Some
                    }
                    ||| {
                        &&& next.rounds.len() == n + 1
                        &&& i == n
                        &&& j == 0
                        &&& next.rounds[n].len() == next.rounds[n - 1].len()
                        &&& next.rounds[n] == blank_row(game.players.len()).update(
                            0,
                            Score { val: None, is_editing: true },
                        )
                        &&& is_complete(next.rounds[r])
                    }
                }
        }),
{
    let sheet = game.sheet_with_score(r, p, v);
    let q = next_unfilled(sheet[r], p + 1);
    lemma_next_unfilled(sheet[r], p + 1);
    lemma_after_wf(game, Command::ScoreEnter(r, p, v));
    let next = game.after(Command::ScoreEnter(r, p, v));
    if q < sheet[r].len() {
        lemma_with_cursor(sheet, Some((r, q)));
    } else if is_complete(sheet[r]) {
        let longer = sheet.push(blank_row(game.players.len()));
        lemma_with_cursor(longer, Some((sheet.len() as int, 0)));
        let n = game.rounds.len() as int;
        assert(next.rounds[n] =~= blank_row(game.players.len()).update(
            0,
            Score { val: None, is_editing: true },
        ));
    } else {
        lemma_with_cursor(sheet, None);
    }
}

/// Play is in order, with the cursor at player `p` of the last round: every
/// earlier round is complete, and in the last round the cells left of the
/// cursor hold a value and the cells from the cursor on hold none.
pub open spec fn in_order(game: Game, p: int) -> bool {
    let last = game.rounds.len() - 1;
    &&& game.wf()
    &&& game.started
    &&& is_cursor(game.rounds, last, p)
    &&& forall|r: int| 0 <= r < last ==> is_complete(#[trigger] game.rounds[r])
    &&& forall|j: int| 0 <= j < p ==> (#[trigger] game.rounds[last][j]).val is Some
    &&& forall|j: int|
        p <= j < game.rounds[last].len() ==> (#[trigger] game.rounds[last][j]).val is None
}

/// A game that was just started is in order, with the cursor at the first
/// player.
pub proof fn law_start_in_order(game: Game)
    requires
        game.wf(),
        game.refuses(Command::GameStart) is None,
    ensures
        in_order(game.after(Command::GameStart), 0),
{
    lemma_after_wf(game, Command::GameStart);
    lemma_with_cursor(seq![blank_row(game.players.len())], Some((0, 0)));
}

/// As long as every score is entered at the cursor, play stays in order:
/// the cursor goes one player to the right, and from the last player to
/// the first player of a new round. It never goes back, never passes over
/// an unfilled cell, and is never lost.
pub proof fn law_fill_order(game: Game, p: int, v: i8)
    requires
        in_order(game, p),
    ensures
        ({
            let last = game.rounds.len() - 1;
            let next = game.after(Command::ScoreEnter(last, p, v));
            &&& game.refuses(Command::ScoreEnter(last, p, v)) is None
            &&& p + 1 < game.players.len() ==> next.rounds.len() == game.rounds.len() && in_order(
                next,
                p + 1,
            )
            &&& p + 1 == game.players.len() ==> next.rounds.len() == game.rounds.len() + 1
                && in_order(next, 0)
        }),
{
    let last = game.rounds.len() - 1;
    let command = Command::ScoreEnter(last, p, v);
    let sheet = game.sheet_with_score(last, p, v);
    let next = game.after(command);
    lemma_after_wf(game, command);
    lemma_next_unfilled(sheet[last], p + 1);
    if p + 1 < game.players.len() {
        lemma_with_cursor(sheet, Some((last, p + 1)));
    } else {
        let longer = sheet.push(blank_row(game.players.len()));
        lemma_with_cursor(longer, Some((sheet.len() as int, 0)));
    }
}

/// Entering a score writes that value into its cell and changes no other
/// value; a round is appended exactly if the round of the entry is
/// complete afterwards.
pub proof fn law_values_after_score(game: Game, r: int, p: int, v: i8)
    requires
        game.wf(),
        game.refuses(Command::ScoreEnter(r, p, v)) is None,
    ensures
        ({
            let next = game.after(Command::ScoreEnter(r, p, v));
            let n = game.rounds.len() as int;
            &&& next.rounds[r][p].val == Some(v)
            &&& forall|i: int, j: int|
                in_sheet(game.rounds, i, j) && !(i == r && j == p) ==> (
                #[trigger] next.rounds[i][j]).val == game.rounds[i][j].val
            &&& next.rounds.len() == n + 1 <==> is_complete(next.rounds[r])
            &&& next.rounds.len() == n <==> !is_complete(next.rounds[r])
        }),
{
    let sheet = game.sheet_with_score(r, p, v);
    let q = next_unfilled(sheet[r], p + 1);
    lemma_next_unfilled(sheet[r], p + 1);
    let next = game.after(Command::ScoreEnter(r, p, v));
    if q < sheet[r].len() {
        assert(next.rounds[r][q].val is None);
    } else if !is_complete(sheet[r]) {
        let j = choose|j: int| 0 <= j < sheet[r].len() && !(#[trigger] sheet[r][j].val is Some);
        assert(next.rounds[r][j].val is None);
    }
}

/// Moving the cursor to a cell of the sheet puts it there and changes no
/// value; doing it a second time changes nothing at all.
pub proof fn law_edit_idempotent(game: Game, r: int, p: int)
    ensures
        ({
            let once = game.after(Command::ScoreEdit(r, p));
            let twice = once.after(Command::ScoreEdit(r, p));
            &&& twice == once
            &&& values(once.rounds) == values(game.rounds)
            &&& once.players == game.players
            &&& once.started == game.started
            &&& once.target == game.target
            &&& in_sheet(game.rounds, r, p) ==> once.focused() == Some((r, p))
                && twice.focused() == Some((r, p))
            &&& !in_sheet(game.rounds, r, p) ==> once == game
        }),
{
    let once = game.after(Command::ScoreEdit(r, p));
    if in_sheet(game.rounds, r, p) {
        lemma_with_cursor(game.rounds, Some((r, p)));
        lemma_with_cursor(once.rounds, Some((r, p)));
        assert(with_cursor(once.rounds, Some((r, p))) =~~= once.rounds);
    }
}

/// Calling the game off is never refused; it keeps the roster and the
/// target, and leaves no round.
pub proof fn law_new_game(game: Game)
    ensures
        game.refuses(Command::GameNew) is None,
        game.after(Command::GameNew).players == game.players,
        game.after(Command::GameNew).target == game.target,
        game.after(Command::GameNew).rounds.len() == 0,
        !game.after(Command::GameNew).started,
{
}

/// Writing a well-formed game to storage and reading it back gives the same
/// game, cursor included.
pub proof fn law_save_restore(game: Game)
    requires
        game.wf(),
    ensures
        game.saved().is_sound(),
        game.saved().restored() == game,
{
}

/// Every game that a sequence of commands leads to from a fresh one is well
/// formed, and comes back from storage as it was written.
pub proof fn law_save_restore_reachable(commands: Seq<Command>)
    ensures
        after_all(Game::fresh(), commands).wf(),
        after_all(Game::fresh(), commands).saved().restored() == after_all(
            Game::fresh(),
            commands,
        ),
{
    law_well_formed_forever(Game::fresh(), commands);
}

/// A store that drops the editing flags loses the cursor and nothing else:
/// reading back gives the same game with no cell being edited.
pub proof fn law_save_restore_without_cursor(game: Game)
    requires
        game.wf(),
    ensures
        ({
            let bare = Game { rounds: with_cursor(game.rounds, None), ..game };
            &&& bare.wf()
            &&& bare.saved().restored() == bare
            &&& values(bare.rounds) == values(game.rounds)
            &&& no_cursor(bare.rounds)
            &&& no_cursor(game.rounds) ==> bare == game
        }),
{
    lemma_with_cursor(game.rounds, None);
    if no_cursor(game.rounds) {
        let bare = with_cursor(game.rounds, None);
        assert forall|r: int| 0 <= r < bare.len() implies #[trigger] bare[r] == game.rounds[r] by {
            assert forall|p: int| 0 <= p < bare[r].len() implies #[trigger] bare[r][p]
                == game.rounds[r][p] by {
                assert(!is_cursor(game.rounds, r, p));
            }
        }
        assert(bare =~= game.rounds);
    }
}

/// Reading a record back gives a well-formed game whatever the record
/// holds, and writing that game gives a record that reads back as the same
/// game.
pub proof fn law_restore_save(record: SavedGameView)
    ensures
        record.restored().wf(),
        record.restored().saved().restored() == record.restored(),
        !record.is_sound() ==> record.restored() == Game::fresh(),
{
}

} // verus!
