//! Putting a game together from the parts of a level.

use crate::bytegrid::ByteGrid;
use crate::cpu::{PlayerPos, RegisterId};
use crate::gameplay::{GamePlayState, DEFAULT_PAGE};
use crate::model::GameModel;
use crate::page::{addr_of_pos, in_grid, joinu16, table_triggers, PageModel, PageState, Trigger};
use crate::rules::GameRules;
use crate::vecmath::V2;
use vstd::prelude::*;

verus! {

broadcast use vstd::std_specs::hash::group_hash_axioms;

/// How a level is kept on disk.
#[derive(Debug, PartialEq, Eq, Copy, Clone, Structural)]
pub enum LevelFormat {
    /// One grid in a text file.
    SingleGrid,
    /// A folder with one text file for each page.
    Folder,
    /// A saved game in a storage file.
    RBStorage,
}

/// Why no format can be told for a path.
#[derive(Debug, PartialEq, Eq, Copy, Clone, Structural)]
pub enum LevelFormatError {
    /// Nothing exists at the path.
    NotFound,
    /// What exists there is neither a folder nor a file.
    Unrecognized,
}

/// The format of the level at a path, from what the file system says of the
/// path: a folder is a level of pages; a file is a saved game if its
/// extension is `storage`, and a single grid otherwise.
pub open spec fn format_of(
    is_dir: bool,
    is_file: bool,
    has_storage_extension: bool,
    exists: bool,
) -> Result<LevelFormat, LevelFormatError> {
    if is_dir {
        Ok(LevelFormat::Folder)
    } else if is_file && has_storage_extension {
        Ok(LevelFormat::RBStorage)
    } else if is_file {
        Ok(LevelFormat::SingleGrid)
    } else if !exists {
        Err(LevelFormatError::NotFound)
    } else {
        Err(LevelFormatError::Unrecognized)
    }
}

/// Tells the format of the level at a path from what the file system says
/// of the path.
pub fn detect_level_format(
    is_dir: bool,
    is_file: bool,
    has_storage_extension: bool,
    exists: bool,
) -> (r: Result<LevelFormat, LevelFormatError>)
    ensures
        r == format_of(is_dir, is_file, has_storage_extension, exists),
{
    if is_dir {
        return Ok(LevelFormat::Folder);
    }
    if is_file {
        if has_storage_extension {
            return Ok(LevelFormat::RBStorage);
        }
        return Ok(LevelFormat::SingleGrid);
    }
    if !exists {
        return Err(LevelFormatError::NotFound);
    }
    Err(LevelFormatError::Unrecognized)
}

/// What a level says of one of its pages.
pub struct PageDescr {
    pub extra_triggers: Vec<Trigger>,
    pub id: u8,
    pub base_name: Option<String>,
    pub file_name: Option<String>,
}

/// What a level says of itself.
pub struct LevelConfig {
    pub initial_page: Option<u8>,
    pub initial_pos: Option<V2>,
    pub rules: GameRules,
    pub encoding: String,
    pub page_descr: Vec<PageDescr>,
}

impl LevelConfig {
    /// What a level says that says nothing: the rules of such a level, the
    /// character table 437, no page.
    pub fn new() -> (r: LevelConfig)
        ensures
            r.initial_page is None,
            r.initial_pos is None,
            r.rules == GameRules::standard(),
            r.encoding@ == "437"@,
            r.page_descr@.len() == 0,
    {
        LevelConfig {
            initial_page: None,
            initial_pos: None,
            rules: GameRules::new(),
            encoding: LevelConfig::default_encoding(),
            page_descr: Vec::new(),
        }
    }

    /// The name of the character table of a level that names none.
    pub fn default_encoding() -> (r: String)
        ensures
            r@ == "437"@,
    {
        "437".to_owned()
    }
}

/// The triggers `base` with the first `n` of `extra` added, each under the
/// packed address of its own cell, a later one replacing an earlier one for
/// the same cell.
pub open spec fn with_triggers(base: Map<u16, Trigger>, extra: Seq<Trigger>, n: int) -> Map<
    u16,
    Trigger,
>
    decreases n,
{
    if n <= 0 {
        base
    } else {
        with_triggers(base, extra, n - 1).insert(
            addr_of_pos(extra[n - 1].pos) as u16,
            extra[n - 1],
        )
    }
}

/// The page that a level starts on: the one it names; else its only page
/// where it has just one; else `DEFAULT_PAGE`.
pub open spec fn is_start_page(game: GameModel, initial_page: Option<u8>, page: u8) -> bool {
    match initial_page {
        Some(p) => page == p,
        None => if game.pages.len() == 1 {
            game.pages.contains_key(page)
        } else {
            page == DEFAULT_PAGE
        },
    }
}

/// A copy of a trigger.
fn copy_trigger(t: &Trigger) -> (r: Trigger)
    ensures
        r == *t,
{
    Trigger {
        pos: t.pos,
        effect: match &t.effect {
            crate::page::TriggerKind::SetPC(pc) => crate::page::TriggerKind::SetPC(*pc),
            crate::page::TriggerKind::EndOfLevel => crate::page::TriggerKind::EndOfLevel,
            crate::page::TriggerKind::Message(m) => crate::page::TriggerKind::Message(m.clone()),
        },
        one_time: t.one_time,
        triggered: t.triggered,
    }
}

impl GamePlayState {
    /// Adds a page with the given memory, the triggers of its table and the
    /// extra triggers. It replaces a page of the same number.
    pub fn add_page(&mut self, id: u8, grid: ByteGrid, extra_triggers: &Vec<Trigger>)
        requires
            old(self).wf(),
        ensures
            final(self).wf(),
            final(self)@ == (GameModel {
                pages: old(self)@.pages.insert(
                    id,
                    PageModel {
                        memory: grid@,
                        triggers: with_triggers(
                            table_triggers(grid@, 256),
                            extra_triggers@,
                            extra_triggers@.len() as int,
                        ),
                    },
                ),
                ..old(self)@
            }),
    {
        let ghost cells = grid@;
        let mut page = PageState::from_grid(grid);
        let mut k: usize = 0;
        while k < extra_triggers.len()
            invariant
                k <= extra_triggers@.len(),
                page@.memory == cells,
                page@.triggers == with_triggers(
                    table_triggers(cells, 256),
                    extra_triggers@,
                    k as int,
                ),
            decreases extra_triggers@.len() - k,
        {
            let t = copy_trigger(&extra_triggers[k]);
            page.triggers.insert(joinu16(t.pos), t);
            k += 1;
        }
        self.pages.insert(id, page);
        proof {
            self.lemma_pages_full();
            assert(self@.pages =~= old(self)@.pages.insert(id, page@));
        }
    }

    /// The number of the only page, where the game has just one.
    fn only_page(&self) -> (r: Option<u8>)
        ensures
            match r {
                Some(id) => self@.pages.len() == 1 && self@.pages.contains_key(id),
                None => self@.pages.len() != 1,
            },
    {
        proof {
            assert(self@.pages.dom() =~= self.pages@.dom());
        }
        if self.pages.len() != 1 {
            return None;
        }
        let mut id: u8 = 0;
        loop
            invariant
                self.pages@.len() == 1,
                self@.pages.dom() == self.pages@.dom(),
                forall|k: u8| k < id ==> !self.pages@.contains_key(k),
            decreases 255 - id,
        {
            if self.pages.contains_key(&id) {
                return Some(id);
            }
            if id == 255 {
                proof {
                    let k = self.pages@.dom().choose();
                    assert(self.pages@.dom().contains(k));
                    assert(false);
                }
                return None;
            }
            id += 1;
        }
    }

    /// Starts the level that was put together: on the page and at the cell
    /// that the level names. Where it names no page, the level starts on its
    /// only page, or on `DEFAULT_PAGE` if it has none or several. Where it
    /// names no cell, the player starts where `get_start` says for that page.
    /// A start cell that holds just the player's bit is set to zero.
    pub fn start_at(&mut self, initial_page: Option<u8>, initial_pos: Option<V2>)
        requires
            old(self).wf(),
            initial_pos matches Some(p) ==> in_grid(p),
        ensures
            final(self).wf(),
            is_start_page(old(self)@, initial_page, final(self).player_page),
            final(self).player is Pos,
            match initial_pos {
                Some(p) => final(self).player == PlayerPos::Pos(p),
                None => crate::gameplay::is_start(
                    old(self)@.page(final(self).player_page).memory,
                    final(self).player->Pos_0,
                ),
            },
            final(self)@ == (GameModel {
                player: final(self).player,
                player_page: final(self).player_page,
                visited: Set::<u8>::empty().insert(final(self).player_page),
                pages: if old(self)@.pages.contains_key(final(self).player_page) && old(
                    self,
                )@.pages[final(self).player_page].memory[addr_of_pos(final(self).player->Pos_0)]
                    == old(self)@.mask() {
                    old(self)@.pages.insert(
                        final(self).player_page,
                        PageModel {
                            memory: old(self)@.pages[final(self).player_page].memory.update(
                                addr_of_pos(final(self).player->Pos_0),
                                0,
                            ),
                            triggers: old(self)@.pages[final(self).player_page].triggers,
                        },
                    )
                } else {
                    old(self)@.pages
                },
                ..old(self)@.with_reg(0, RegisterId::Page, final(self).player_page)
            }),
    {
        let page_id: u8 = match initial_page {
            Some(p) => p,
            None => match self.only_page() {
                Some(id) => id,
                None => DEFAULT_PAGE,
            },
        };
        self.set_initial_page(page_id);
        let pos = match initial_pos {
            Some(p) => p,
            None => GamePlayState::get_start(&self.current_page().memory),
        };
        self.player = PlayerPos::Pos(pos);
        let player_mask = self.player_mask();
        let addr = joinu16(pos);
        let marked = match self.pages.get(&page_id) {
            Some(page) => page.memory.get(addr) == player_mask,
            None => false,
        };
        if marked {
            let mut page = self.pages.remove(&page_id).unwrap();
            page.memory.set(addr, 0);
            self.pages.insert(page_id, page);
        }
        proof {
            self.lemma_pages_full();
            let want_pages = if old(self)@.pages.contains_key(page_id) && old(
                self,
            )@.pages[page_id].memory[addr_of_pos(pos)] == old(self)@.mask() {
                old(self)@.pages.insert(
                    page_id,
                    PageModel {
                        memory: old(self)@.pages[page_id].memory.update(addr_of_pos(pos), 0),
                        triggers: old(self)@.pages[page_id].triggers,
                    },
                )
            } else {
                old(self)@.pages
            };
            assert(self@.pages =~= want_pages);
        }
    }
}

/// A trigger of a saved game.
pub struct RbJump {
    /// The page that the trigger is on.
    pub realm: u8,
    pub x: u8,
    pub y: u8,
    /// The address that the trigger sets the program counter to; zero where
    /// the trigger shows its text instead.
    pub code: u16,
    pub achievement: String,
}

/// A saved game as plain values. The cells of its two pages are kept by
/// address, low byte first: row and column change places against the packed
/// addresses of a grid.
pub struct RbSave {
    pub realm2: std::collections::HashMap<u16, u8>,
    pub realm42: std::collections::HashMap<u16, u8>,
    pub jumps: Vec<RbJump>,
    pub page_register: u8,
    pub player_x: u8,
    pub player_y: u8,
    pub compare_register: u8,
    pub data_register: u8,
    pub program_location: u16,
    pub program_line: u16,
}

/// An address with its two bytes in each other's place.
pub open spec fn swapped(v: u16) -> u16 {
    ((v % 256) * 256 + v / 256) as u16
}

/// An address with its two bytes in each other's place.
pub fn swap_bytes(v: u16) -> (r: u16)
    ensures
        r == swapped(v),
        swapped(r) == v,
{
    (v % 256) * 256 + v / 256
}

/// The cells of the page of a saved game: each cell holds what the save
/// keeps under its address with the bytes swapped, or zero.
pub open spec fn saved_cells(cells: Map<u16, u8>) -> Seq<u8> {
    Seq::new(
        65536,
        |a: int| if cells.contains_key(swapped(a as u16)) { cells[swapped(a as u16)] } else { 0u8 },
    )
}

/// The trigger that a trigger of a saved game stands for: it fires once, and
/// sets the program counter where it has an address, or shows its text where
/// it has none.
pub open spec fn saved_trigger(jump: RbJump) -> Trigger {
    Trigger {
        pos: V2 { x: jump.x as i32, y: jump.y as i32 },
        effect: if jump.code != 0 {
            crate::page::TriggerKind::SetPC(jump.code)
        } else {
            crate::page::TriggerKind::Message(jump.achievement)
        },
        one_time: true,
        triggered: false,
    }
}

/// The triggers of page `realm` among the first `n` of a saved game, a later
/// one replacing an earlier one for the same cell.
pub open spec fn saved_triggers(jumps: Seq<RbJump>, realm: u8, n: int) -> Map<u16, Trigger>
    decreases n,
{
    if n <= 0 {
        Map::empty()
    } else if jumps[n - 1].realm == realm {
        saved_triggers(jumps, realm, n - 1).insert(
            crate::bytegrid::cell_addr(jumps[n - 1].x, jumps[n - 1].y) as u16,
            saved_trigger(jumps[n - 1]),
        )
    } else {
        saved_triggers(jumps, realm, n - 1)
    }
}

/// The page `realm` of a saved game.
pub open spec fn saved_page(cells: Map<u16, u8>, jumps: Seq<RbJump>, realm: u8) -> PageModel {
    PageModel {
        memory: saved_cells(cells),
        triggers: saved_triggers(jumps, realm, jumps.len() as int),
    }
}

/// The address at which the program of a saved game goes on.
pub open spec fn saved_pc(save: RbSave) -> int {
    swapped(save.program_location) + save.program_line * 256
}

/// Builds the page `realm` of a saved game.
fn page_from_save(cells: &std::collections::HashMap<u16, u8>, jumps: &Vec<RbJump>, realm: u8) -> (r:
    PageState)
    ensures
        r@ == saved_page(cells@, jumps@, realm),
{
    let mut grid = ByteGrid::new();
    let mut a: usize = 0;
    while a < 65536
        invariant
            a <= 65536,
            forall|k: int| 0 <= k < a ==> #[trigger] grid@[k] == saved_cells(cells@)[k],
            forall|k: int| a <= k < 65536 ==> #[trigger] grid@[k] == 0,
        decreases 65536 - a,
    {
        proof {
            grid.lemma_view_len();
        }
        let key = swap_bytes(a as u16);
        match cells.get(&key) {
            Some(v) => {
                grid.set(a as u16, *v);
            },
            None => {},
        }
        a += 1;
    }
    proof {
        grid.lemma_view_len();
        assert(grid@ =~= saved_cells(cells@));
    }
    let mut page = PageState::from_grid_raw(grid);
    let mut k: usize = 0;
    while k < jumps.len()
        invariant
            k <= jumps@.len(),
            page@.memory == saved_cells(cells@),
            page@.triggers == saved_triggers(jumps@, realm, k as int),
        decreases jumps@.len() - k,
    {
        let jump = &jumps[k];
        if jump.realm == realm {
            let effect = if jump.code != 0 {
                crate::page::TriggerKind::SetPC(jump.code)
            } else {
                crate::page::TriggerKind::Message(jump.achievement.clone())
            };
            page.triggers.insert(
                crate::page::joinu8(jump.x, jump.y),
                Trigger {
                    pos: V2::make(jump.x as i32, jump.y as i32),
                    effect,
                    one_time: true,
                    triggered: false,
                },
            );
        }
        k += 1;
    }
    page
}

impl GamePlayState {
    /// The game that a saved game stands for: its two pages, 2 and 66, with
    /// their triggers; the player on the page of the page register, which alone
    /// is visited, at the saved cell; the registers and the program counter as
    /// saved.
    pub fn from_rbsave(save: &RbSave) -> (r: GamePlayState)
        requires
            saved_pc(*save) <= u16::MAX,
        ensures
            r.wf(),
            r.player == PlayerPos::Pos(V2 { x: save.player_x as i32, y: save.player_y as i32 }),
            r.player_page == save.page_register,
            r.player_offset == crate::gameplay::PLAYER_OFFSET,
            r@.pages == Map::<u8, PageModel>::empty().insert(
                2,
                saved_page(save.realm2@, save.jumps@, 2),
            ).insert(66, saved_page(save.realm42@, save.jumps@, 66)),
            r@.cpu.len() == 1,
            r@.cpu[0].pc == saved_pc(*save),
            crate::cpu::registers_are(
                r@.cpu[0].registers,
                save.data_register,
                save.page_register,
                save.compare_register,
            ),
            r@.visited == Set::<u8>::empty().insert(save.page_register),
            r@.rules == GameRules::standard(),
            !r@.page_instruction_executed,
            !r@.end_of_level,
    {
        let mut game = GamePlayState::new();
        game.pages.insert(2, page_from_save(&save.realm2, &save.jumps, 2));
        game.pages.insert(66, page_from_save(&save.realm42, &save.jumps, 66));
        proof {
            game.lemma_pages_full();
        }
        game.set_initial_page(save.page_register);
        game.player = PlayerPos::Pos(V2::make(save.player_x as i32, save.player_y as i32));
        game.set_reg(0, RegisterId::Compare, save.compare_register);
        game.set_reg(0, RegisterId::Page, save.page_register);
        game.set_reg(0, RegisterId::Data, save.data_register);
        game.set_pc(0, swap_bytes(save.program_location) + save.program_line * 0x100);
        proof {
            game.lemma_pages_full();
            assert(game@.pages =~= Map::<u8, PageModel>::empty().insert(
                2,
                saved_page(save.realm2@, save.jumps@, 2),
            ).insert(66, saved_page(save.realm42@, save.jumps@, 66)));
        }
        game
    }
}

} // verus!
