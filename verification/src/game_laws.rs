//! Laws of the game's transitions, stated over the game as a value.

use crate::cpu::{Instruction, PlayerPos, RegisterId};
use crate::model::GameModel;
use crate::page::{addr_of_pos, PageModel, Trigger};
use crate::rules::{step_spec, MoveDir, PlayerMove};
use crate::vecmath::V2;
use vstd::prelude::*;

verus! {

/// The cell where the player stands shows what it stores with the player's
/// bit set; every other cell shows what it stores.
pub proof fn lemma_effective_overlay(game: GameModel, page: PageModel, p: V2, q: V2)
    requires
        game.player == PlayerPos::Pos(p),
        q != p,
    ensures
        game.effective_value(page, p) == page.memory[addr_of_pos(p)] | game.mask(),
        game.effective_value(page, q) == page.memory[addr_of_pos(q)],
{
}

/// The player's bit is set in what the player's own cell shows, so that cell
/// is never accessible.
pub proof fn lemma_own_cell_not_accessible(game: GameModel, page: PageModel, p: V2)
    requires
        game.wf(),
        game.player == PlayerPos::Pos(p),
    ensures
        !game.accessible(game.effective_value(page, p)),
{
    let stored = page.memory[addr_of_pos(p)];
    let offset = game.player_offset;
    assert((stored | (1u8 << offset)) & (1u8 << offset) != 0) by (bit_vector)
        requires
            offset < 8,
    ;
}

/// What the step of a player on the grid aims at.
pub open spec fn aimed_cell(game: GameModel, dir: MoveDir) -> V2
    recommends
        game.player is Pos,
{
    step_spec(game.player->Pos_0, dir, game.rules.wrap_mode)
}

/// Whether a step of the player in direction `dir` is blocked: the player is
/// on the grid and the cell that the step aims at shows the player's bit.
pub open spec fn step_blocked(game: GameModel, dir: MoveDir) -> bool {
    &&& game.player is Pos
    &&& !game.accessible(game.effective_value(game.current_page(), aimed_cell(game, dir)))
}

/// A step toward a cell that shows the player's bit changes nothing.
pub proof fn lemma_blocked_step_changes_nothing(game: GameModel, dir: MoveDir)
    requires
        step_blocked(game, dir),
    ensures
        game.move_player(dir) == game,
{
}

/// Whether the first CPU runs a swap in the turn that follows `game`, the
/// player's action already taken.
pub open spec fn turn_swaps(game: GameModel) -> bool {
    let triggered = game.apply_triggers();
    triggered.in_step() && triggered.read_instruction(
        triggered.cpu[0].pc,
        triggered.register_value(0, RegisterId::Page),
    ) is Swap
}

/// A turn in which the player steps toward a cell that shows the player's
/// bit leaves the player where it was, unless the CPU runs a swap in that
/// turn.
pub proof fn lemma_blocked_move_keeps_player(game: GameModel, dir: MoveDir)
    requires
        game.wf(),
        step_blocked(game, dir),
        !turn_swaps(game),
    ensures
        game.make_move(PlayerMove::Move(dir)).player == game.player,
{
    let action = PlayerMove::Move(dir);
    assert(game.act(action) == game);
    let triggered = game.apply_triggers();
    assert(triggered.player == game.player);
    if triggered.in_step() {
        let page_id = triggered.register_value(0, RegisterId::Page);
        let instr = triggered.read_instruction(triggered.cpu[0].pc, page_id);
        assert(!(instr is Swap));
        assert(triggered.step_cpu(0).player == triggered.player);
    }
}

/// Whether the action is a step that is blocked, in a turn in which the CPU
/// runs no swap.
pub open spec fn blocked_turn(game: GameModel, action: PlayerMove) -> bool {
    match action {
        PlayerMove::Move(dir) => step_blocked(game, dir) && !turn_swaps(game),
        PlayerMove::RotatePage => false,
    }
}

/// There is a trigger at `key` of page `page`, and it will not fire again.
pub open spec fn spent(game: GameModel, page: u8, key: u16) -> bool {
    &&& game.pages.contains_key(page)
    &&& game.pages[page].triggers.contains_key(key)
    &&& !game.pages[page].triggers[key].active()
}

/// There is a trigger at `key` of page `page`, and it fires every time.
pub open spec fn repeating(game: GameModel, page: u8, key: u16) -> bool {
    &&& game.pages.contains_key(page)
    &&& game.pages[page].triggers.contains_key(key)
    &&& !game.pages[page].triggers[key].one_time
}

/// The key of the trigger at the player's cell.
pub open spec fn player_key(game: GameModel) -> u16
    recommends
        game.player is Pos,
{
    addr_of_pos(game.player->Pos_0) as u16
}

/// A trigger that fires only once is spent once it has fired: with the
/// player still on its cell nothing fires, and firing again changes nothing.
pub proof fn lemma_one_time_trigger_fires_once(game: GameModel)
    requires
        game.trigger_here() is Some,
        game.trigger_here()->0.one_time,
    ensures
        spent(game.apply_triggers(), game.player_page, player_key(game)),
        game.apply_triggers().trigger_here() is None,
        game.apply_triggers().apply_triggers() == game.apply_triggers(),
{
    let after = game.apply_triggers();
    let fired = game.mark_fired();
    let key = player_key(game);
    assert(fired.pages[game.player_page].triggers[key].triggered);
    assert(after.pages == fired.pages);
    assert(after.player == game.player);
    assert(after.player_page == game.player_page);
}

/// A trigger that fires every time is still active after it has fired, and
/// does the same again.
pub proof fn lemma_repeating_trigger_fires_again(game: GameModel)
    requires
        game.trigger_here() is Some,
        !game.trigger_here()->0.one_time,
    ensures
        game.apply_triggers().trigger_here() is Some,
        game.apply_triggers().trigger_here()->0.effect == game.trigger_here()->0.effect,
        !game.apply_triggers().trigger_here()->0.one_time,
{
    let after = game.apply_triggers();
    let fired = game.mark_fired();
    let key = player_key(game);
    assert(fired.pages[game.player_page].triggers[key].effect == game.trigger_here()->0.effect);
    assert(after.pages == fired.pages);
    assert(after.player == game.player);
    assert(after.player_page == game.player_page);
}

/// With the player on the cell of an active trigger, that trigger fires.
pub proof fn lemma_active_trigger_fires(game: GameModel, t: Trigger)
    requires
        game.player is Pos,
        game.pages.contains_key(game.player_page),
        game.pages[game.player_page].triggers.contains_key(player_key(game)),
        game.pages[game.player_page].triggers[player_key(game)] == t,
        t.active(),
    ensures
        game.trigger_here() == Some(t),
        game.apply_triggers().pages[game.player_page].triggers[player_key(game)].triggered,
{
}

/// The triggers of page `page` after the CPU has run are those before it.
proof fn lemma_step_cpu_keeps_triggers(game: GameModel, id: int, page: u8)
    requires
        game.pages.contains_key(page),
    ensures
        game.step_cpu(id).pages.contains_key(page),
        game.step_cpu(id).pages[page].triggers == game.pages[page].triggers,
{
    let page_id = game.register_value(id, RegisterId::Page);
    let pc = game.cpu[id].pc;
    let next = game.with_pc(id, crate::model::pc_after(pc));
    match game.read_instruction(pc, page_id) {
        Instruction::Swap(addr) => {
            assert(next.pages == game.pages);
            let swapped = next.swap(id, page_id, addr);
            assert(swapped.pages.contains_key(page));
            assert(swapped.pages[page].triggers == game.pages[page].triggers);
        },
        _ => {},
    }
}

/// A spent trigger stays spent through every turn.
pub proof fn lemma_spent_stays_spent(game: GameModel, action: PlayerMove, page: u8, key: u16)
    requires
        spent(game, page, key),
    ensures
        spent(game.make_move(action), page, key),
{
    let acted = game.act(action);
    assert(acted.pages == game.pages);
    let triggered = acted.apply_triggers();
    assert(spent(triggered, page, key));
    lemma_step_cpu_keeps_triggers(triggered, 0, page);
}

/// A trigger that fires every time stays one through every turn.
pub proof fn lemma_repeating_stays_repeating(
    game: GameModel,
    action: PlayerMove,
    page: u8,
    key: u16,
)
    requires
        repeating(game, page, key),
    ensures
        repeating(game.make_move(action), page, key),
{
    let acted = game.act(action);
    assert(acted.pages == game.pages);
    let triggered = acted.apply_triggers();
    assert(repeating(triggered, page, key));
    lemma_step_cpu_keeps_triggers(triggered, 0, page);
}

} // verus!
