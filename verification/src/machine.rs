//! The interactive state machine: the reorder model, the transition
//! function over key presses and timer ticks, and the folding of a
//! privileged command's outcome into the next screen.
//!
//! Every transition of the executable controller equals the spec-level
//! transition function, so the behaviour of the whole controller is pinned
//! by `spec_step_key`, `spec_step_tick`, `spec_apply_outcome` and
//! `init_spec`.

use vstd::prelude::*;

use crate::entry::{
    arrange_entries, arrange_spec, entry_ids, ids_eq, ids_of, join_ids, join_ids_chars, views_of,
    BootEntry, EntryV,
};
use crate::executor::{
    boot_once_next, execute_boot_once, execute_set_boot_order, CommandOutcome, OutcomeV,
    set_order_next,
};
use crate::state::{
    Action, ActionV, Focus, Invocation, InvocationV, Key, StateV, Step, StepV, UIState,
};
use crate::text::{hex4, hex4_chars};

verus! {

/// The interactive controller: the reorder model, the current screen and
/// the transient values one confirm-and-execute cycle needs.
pub struct Machine {
    /// The boot entries, in the order currently shown and applied.
    pub entries: Vec<BootEntry>,
    /// The cursor of the priority panel.
    pub priority_cursor: usize,
    /// The cursor of the boot-target panel.
    pub boot_target_cursor: usize,
    /// Which panel has keyboard focus.
    pub focus: Focus,
    /// The entry identifiers in their order at startup, kept to detect
    /// unsaved changes when quitting.
    pub original_order: Vec<u16>,
    /// The identifier the fetched order listed first, if any; shown as the
    /// current boot marker and never changed.
    pub current_boot: Option<u16>,
    /// The current screen.
    pub state: UIState,
    /// The secret buffer, exactly as typed; cleared after every use.
    pub password: Vec<char>,
    /// Whether the secret is echoed visibly; display only.
    pub show_password: bool,
    /// The privileged action a confirmed password will execute.
    pub pending: Action,
    /// The yes/no selection of the reboot confirmation.
    pub reboot_yes: bool,
    /// The yes/no selection of the quit confirmation.
    pub quit_yes: bool,
}

/// Spec-level value of the whole controller.
#[verifier::ext_equal]
pub struct MachineV {
    pub entries: Seq<EntryV>,
    pub priority_cursor: int,
    pub boot_target_cursor: int,
    pub focus: Focus,
    pub original_order: Seq<u16>,
    pub current_boot: Option<u16>,
    pub state: StateV,
    pub password: Seq<char>,
    pub show_password: bool,
    pub pending: ActionV,
    pub reboot_yes: bool,
    pub quit_yes: bool,
}

impl View for Machine {
    type V = MachineV;

    open spec fn view(&self) -> MachineV {
        MachineV {
            entries: views_of(self.entries@),
            priority_cursor: self.priority_cursor as int,
            boot_target_cursor: self.boot_target_cursor as int,
            focus: self.focus,
            original_order: self.original_order@,
            current_boot: self.current_boot,
            state: self.state@,
            password: self.password@,
            show_password: self.show_password,
            pending: self.pending@,
            reboot_yes: self.reboot_yes,
            quit_yes: self.quit_yes,
        }
    }
}

impl MachineV {
    /// Well-formedness: both cursors lie inside the entry list whenever it
    /// is non-empty (and rest at zero when it is empty), and a countdown
    /// always holds between one and five seconds.
    pub open spec fn inv(self) -> bool {
        &&& (self.entries.len() == 0 ==> self.priority_cursor == 0 && self.boot_target_cursor
            == 0)
        &&& (self.entries.len() > 0 ==> 0 <= self.priority_cursor < self.entries.len() && 0
            <= self.boot_target_cursor < self.entries.len())
        &&& (match self.state {
            StateV::CountdownReboot(n) => 1 <= n <= 5,
            _ => true,
        })
    }
}

/// The controller as it starts: entries arranged by the fetched order,
/// both cursors on the first entry, priority panel focused, main screen.
pub open spec fn init_spec(es: Seq<EntryV>, order: Seq<u16>) -> MachineV {
    let arranged = arrange_spec(es, order);
    MachineV {
        entries: arranged,
        priority_cursor: 0,
        boot_target_cursor: 0,
        focus: Focus::Priority,
        original_order: ids_of(arranged),
        current_boot: if order.len() > 0 {
            Some(order[0])
        } else {
            None
        },
        state: StateV::Main,
        password: Seq::empty(),
        show_password: false,
        pending: ActionV::Idle,
        reboot_yes: true,
        quit_yes: false,
    }
}

/// Move the focused panel's cursor one entry up; a press at the top edge
/// is a no-op.
pub open spec fn spec_move_up(m: MachineV) -> MachineV {
    match m.focus {
        Focus::Priority => if m.priority_cursor > 0 {
            MachineV { priority_cursor: m.priority_cursor - 1, ..m }
        } else {
            m
        },
        Focus::BootTarget => if m.boot_target_cursor > 0 {
            MachineV { boot_target_cursor: m.boot_target_cursor - 1, ..m }
        } else {
            m
        },
    }
}

/// Move the focused panel's cursor one entry down; a press at the bottom
/// edge is a no-op.
pub open spec fn spec_move_down(m: MachineV) -> MachineV {
    match m.focus {
        Focus::Priority => if m.priority_cursor + 1 < m.entries.len() {
            MachineV { priority_cursor: m.priority_cursor + 1, ..m }
        } else {
            m
        },
        Focus::BootTarget => if m.boot_target_cursor + 1 < m.entries.len() {
            MachineV { boot_target_cursor: m.boot_target_cursor + 1, ..m }
        } else {
            m
        },
    }
}

/// Swap the entry under the priority cursor with its upper neighbour and
/// move the cursor with it; a press at the top edge is a no-op.
pub open spec fn spec_reorder_up(m: MachineV) -> MachineV {
    if 0 < m.priority_cursor < m.entries.len() {
        let pc = m.priority_cursor;
        MachineV {
            entries: m.entries.update(pc, m.entries[pc - 1]).update(pc - 1, m.entries[pc]),
            priority_cursor: pc - 1,
            ..m
        }
    } else {
        m
    }
}

/// Swap the entry under the priority cursor with its lower neighbour and
/// move the cursor with it; a press at the bottom edge is a no-op.
pub open spec fn spec_reorder_down(m: MachineV) -> MachineV {
    if m.priority_cursor + 1 < m.entries.len() {
        let pc = m.priority_cursor;
        MachineV {
            entries: m.entries.update(pc, m.entries[pc + 1]).update(pc + 1, m.entries[pc]),
            priority_cursor: pc + 1,
            ..m
        }
    } else {
        m
    }
}

/// Confirm in the main view: record the pending action for the focused
/// panel, clear the secret buffer and open the password prompt.  With no
/// entries there is nothing to act on and the press is a no-op.
pub open spec fn spec_confirm(m: MachineV) -> MachineV {
    if m.entries.len() == 0 {
        m
    } else {
        MachineV {
            pending: match m.focus {
                Focus::Priority => ActionV::SetOrder(ids_of(m.entries)),
                Focus::BootTarget => ActionV::BootOnce(m.entries[m.boot_target_cursor].id),
            },
            password: Seq::empty(),
            state: StateV::AskPassword,
            ..m
        }
    }
}

/// One key press in the main view.
pub open spec fn spec_main_key(m: MachineV, k: Key) -> (MachineV, StepV) {
    match k {
        Key::Char(c) => if c == 'q' {
            if ids_of(m.entries) == m.original_order {
                (m, StepV::Exit)
            } else {
                (MachineV { state: StateV::QuitConfirm, quit_yes: false, ..m }, StepV::Continue)
            }
        } else if c == 'k' {
            (spec_move_up(m), StepV::Continue)
        } else if c == 'j' {
            (spec_move_down(m), StepV::Continue)
        } else if c == 'u' && m.focus == Focus::Priority {
            (spec_reorder_up(m), StepV::Continue)
        } else if c == 'd' && m.focus == Focus::Priority {
            (spec_reorder_down(m), StepV::Continue)
        } else if c == '?' || c == 'h' {
            (MachineV { state: StateV::Help, ..m }, StepV::Continue)
        } else {
            (m, StepV::Continue)
        },
        Key::Tab => (
            MachineV {
                focus: match m.focus {
                    Focus::Priority => Focus::BootTarget,
                    Focus::BootTarget => Focus::Priority,
                },
                ..m
            },
            StepV::Continue,
        ),
        Key::Up => (spec_move_up(m), StepV::Continue),
        Key::Down => (spec_move_down(m), StepV::Continue),
        Key::Enter => (spec_confirm(m), StepV::Continue),
        _ => (m, StepV::Continue),
    }
}

/// One key press in the password prompt.
pub open spec fn spec_ask_key(m: MachineV, k: Key) -> (MachineV, StepV) {
    match k {
        Key::Esc => (
            MachineV {
                password: Seq::empty(),
                pending: ActionV::Idle,
                state: StateV::Main,
                ..m
            },
            StepV::Continue,
        ),
        Key::Tab => (MachineV { show_password: !m.show_password, ..m }, StepV::Continue),
        Key::Backspace => (
            MachineV {
                password: if m.password.len() > 0 {
                    m.password.drop_last()
                } else {
                    m.password
                },
                ..m
            },
            StepV::Continue,
        ),
        Key::Enter => match m.pending {
            ActionV::SetOrder(ids) => (m, StepV::Invoke(InvocationV::SetOrder(join_ids(ids)))),
            ActionV::BootOnce(id) => (m, StepV::Invoke(InvocationV::BootOnce(hex4(id)))),
            ActionV::Idle => (MachineV { state: StateV::Main, ..m }, StepV::Continue),
        },
        Key::Char(c) => (MachineV { password: m.password.push(c), ..m }, StepV::Continue),
        _ => (m, StepV::Continue),
    }
}

/// One key press in the reboot confirmation.
pub open spec fn spec_confirm_reboot_key(m: MachineV, k: Key) -> (MachineV, StepV) {
    match k {
        Key::Esc => (MachineV { state: StateV::Main, ..m }, StepV::Continue),
        Key::Left | Key::Right | Key::Tab => (
            MachineV { reboot_yes: !m.reboot_yes, ..m },
            StepV::Continue,
        ),
        Key::Enter => if m.reboot_yes {
            (MachineV { state: StateV::CountdownReboot(5), ..m }, StepV::Continue)
        } else {
            (MachineV { state: StateV::Main, ..m }, StepV::Continue)
        },
        _ => (m, StepV::Continue),
    }
}

/// One key press in the quit confirmation.
pub open spec fn spec_quit_key(m: MachineV, k: Key) -> (MachineV, StepV) {
    match k {
        Key::Esc => (MachineV { state: StateV::Main, ..m }, StepV::Continue),
        Key::Left | Key::Right | Key::Tab => (
            MachineV { quit_yes: !m.quit_yes, ..m },
            StepV::Continue,
        ),
        Key::Enter => if m.quit_yes {
            (m, StepV::Exit)
        } else {
            (MachineV { state: StateV::Main, ..m }, StepV::Continue)
        },
        _ => (m, StepV::Continue),
    }
}

/// The controller's reaction to one key press, in every state.
pub open spec fn spec_step_key(m: MachineV, k: Key) -> (MachineV, StepV) {
    match m.state {
        StateV::Main => spec_main_key(m, k),
        StateV::AskPassword => spec_ask_key(m, k),
        StateV::PasswordError => (
            MachineV { password: Seq::empty(), state: StateV::AskPassword, ..m },
            StepV::Continue,
        ),
        StateV::ConfirmReboot => spec_confirm_reboot_key(m, k),
        StateV::CountdownReboot(_) => if k == Key::Esc {
            (MachineV { state: StateV::Main, ..m }, StepV::Continue)
        } else {
            (m, StepV::Continue)
        },
        StateV::QuitConfirm => spec_quit_key(m, k),
        StateV::Help => (MachineV { state: StateV::Main, ..m }, StepV::Continue),
        StateV::ErrorMessage(_) => (
            MachineV { state: StateV::AskPassword, ..m },
            StepV::Continue,
        ),
    }
}

/// The controller's reaction to one elapsed second: a running countdown
/// advances, and its final second demands the reboot; anything else is
/// unaffected by time.
pub open spec fn spec_step_tick(m: MachineV) -> (MachineV, StepV) {
    match m.state {
        StateV::CountdownReboot(n) => if n > 1 {
            (MachineV { state: StateV::CountdownReboot((n - 1) as u8), ..m }, StepV::Continue)
        } else {
            (m, StepV::Reboot)
        },
        _ => (m, StepV::Continue),
    }
}

/// Fold a privileged invocation's outcome into the next screen, per the
/// pending action, and clear the secret buffer.  Entering the reboot
/// confirmation resets its selection to the default "yes".
pub open spec fn spec_apply_outcome(m: MachineV, oc: OutcomeV) -> MachineV {
    let st = match m.pending {
        ActionV::SetOrder(_) => set_order_next(oc),
        ActionV::BootOnce(_) => boot_once_next(oc),
        ActionV::Idle => StateV::Main,
    };
    MachineV {
        state: st,
        password: Seq::empty(),
        reboot_yes: if st == StateV::ConfirmReboot {
            true
        } else {
            m.reboot_yes
        },
        ..m
    }
}

impl Machine {
    /// Build the controller from the fetched entries and the fetched boot
    /// order: the entries are arranged by the order, the arranged order is
    /// snapshotted for change detection, and the order's first identifier
    /// becomes the current-boot marker.
    pub fn new(entries: Vec<BootEntry>, order: Vec<u16>) -> (m: Machine)
        ensures
            m@ == init_spec(views_of(entries@), order@),
            m@.inv(),
    {
        let arranged = arrange_entries(&entries, &order);
        let original_order = entry_ids(&arranged);
        let current_boot = if order.len() > 0 {
            Some(order[0])
        } else {
            None
        };
        let m = Machine {
            entries: arranged,
            priority_cursor: 0,
            boot_target_cursor: 0,
            focus: Focus::Priority,
            original_order,
            current_boot,
            state: UIState::Main,
            password: Vec::new(),
            show_password: false,
            pending: Action::Idle,
            reboot_yes: true,
            quit_yes: false,
        };
        proof {
            assert(m@ =~= init_spec(views_of(entries@), order@));
        }
        m
    }

    /// One key press in the main view.
    fn key_main(&mut self, k: Key) -> (r: Step)
        requires
            old(self)@.inv(),
            old(self)@.state is Main,
        ensures
            final(self)@.inv(),
            final(self)@ == spec_step_key(old(self)@, k).0,
            r@ == spec_step_key(old(self)@, k).1,
    {
        match k {
            Key::Char(c) => {
                if c == 'q' {
                    let current = entry_ids(&self.entries);
                    if ids_eq(&current, &self.original_order) {
                        Step::Exit
                    } else {
                        self.state = UIState::QuitConfirm;
                        self.quit_yes = false;
                        proof {
                            assert(self@ =~= spec_step_key(old(self)@, k).0);
                        }
                        Step::Continue
                    }
                } else if c == 'k' {
                    self.move_cursor_up();
                    Step::Continue
                } else if c == 'j' {
                    self.move_cursor_down();
                    Step::Continue
                } else if c == 'u' && matches!(self.focus, Focus::Priority) {
                    self.reorder_up();
                    Step::Continue
                } else if c == 'd' && matches!(self.focus, Focus::Priority) {
                    self.reorder_down();
                    Step::Continue
                } else if c == '?' || c == 'h' {
                    self.state = UIState::Help;
                    proof {
                        assert(self@ =~= spec_step_key(old(self)@, k).0);
                    }
                    Step::Continue
                } else {
                    Step::Continue
                }
            },
            Key::Tab => {
                self.focus = match self.focus {
                    Focus::Priority => Focus::BootTarget,
                    Focus::BootTarget => Focus::Priority,
                };
                proof {
                    assert(self@ =~= spec_step_key(old(self)@, k).0);
                }
                Step::Continue
            },
            Key::Up => {
                self.move_cursor_up();
                Step::Continue
            },
            Key::Down => {
                self.move_cursor_down();
                Step::Continue
            },
            Key::Enter => {
                if self.entries.len() > 0 {
                    match self.focus {
                        Focus::Priority => {
                            let ids = entry_ids(&self.entries);
                            self.pending = Action::SetOrder(ids);
                        },
                        Focus::BootTarget => {
                            let id = self.entries[self.boot_target_cursor].id;
                            self.pending = Action::BootOnce(id);
                        },
                    }
                    self.password.clear();
                    self.state = UIState::AskPassword;
                    proof {
                        assert(self@ =~= spec_step_key(old(self)@, k).0);
                    }
                }
                Step::Continue
            },
            _ => Step::Continue,
        }
    }

    /// Move the focused cursor one entry up (no-op at the top edge).
    fn move_cursor_up(&mut self)
        requires
            old(self)@.inv(),
        ensures
            final(self)@.inv(),
            final(self)@ == spec_move_up(old(self)@),
    {
        proof {
            assert(self@.entries.len() == self.entries@.len());
        }
        match self.focus {
            Focus::Priority => {
                if self.priority_cursor > 0 {
                    self.priority_cursor = self.priority_cursor - 1;
                }
            },
            Focus::BootTarget => {
                if self.boot_target_cursor > 0 {
                    self.boot_target_cursor = self.boot_target_cursor - 1;
                }
            },
        }
        proof {
            assert(self@ =~= spec_move_up(old(self)@));
        }
    }

    /// Move the focused cursor one entry down (no-op at the bottom edge).
    fn move_cursor_down(&mut self)
        requires
            old(self)@.inv(),
        ensures
            final(self)@.inv(),
            final(self)@ == spec_move_down(old(self)@),
    {
        proof {
            assert(self@.entries.len() == self.entries@.len());
        }
        match self.focus {
            Focus::Priority => {
                let n = self.entries.len();
                if self.priority_cursor < n && n - self.priority_cursor > 1 {
                    self.priority_cursor = self.priority_cursor + 1;
                }
            },
            Focus::BootTarget => {
                let n = self.entries.len();
                if self.boot_target_cursor < n && n - self.boot_target_cursor > 1 {
                    self.boot_target_cursor = self.boot_target_cursor + 1;
                }
            },
        }
        proof {
            assert(self@ =~= spec_move_down(old(self)@));
        }
    }

    /// Swap the entry under the priority cursor with its upper neighbour.
    fn reorder_up(&mut self)
        requires
            old(self)@.inv(),
        ensures
            final(self)@.inv(),
            final(self)@ == spec_reorder_up(old(self)@),
    {
        proof {
            assert(self@.entries.len() == self.entries@.len());
        }
        if self.priority_cursor > 0 && self.priority_cursor < self.entries.len() {
            let pc = self.priority_cursor;
            let e = self.entries.remove(pc);
            self.entries.insert(pc - 1, e);
            self.priority_cursor = pc - 1;
            proof {
                assert(self@.entries =~= spec_reorder_up(old(self)@).entries);
                assert(self@ =~= spec_reorder_up(old(self)@));
            }
        }
    }

    /// Swap the entry under the priority cursor with its lower neighbour.
    fn reorder_down(&mut self)
        requires
            old(self)@.inv(),
        ensures
            final(self)@.inv(),
            final(self)@ == spec_reorder_down(old(self)@),
    {
        proof {
            assert(self@.entries.len() == self.entries@.len());
        }
        let n = self.entries.len();
        if self.priority_cursor < n && n - self.priority_cursor > 1 {
            let pc = self.priority_cursor;
            let e = self.entries.remove(pc);
            self.entries.insert(pc + 1, e);
            self.priority_cursor = pc + 1;
            proof {
                assert(self@.entries =~= spec_reorder_down(old(self)@).entries);
                assert(self@ =~= spec_reorder_down(old(self)@));
            }
        }
    }

    /// One key press in the password prompt.
    fn key_ask(&mut self, k: Key) -> (r: Step)
        requires
            old(self)@.inv(),
            old(self)@.state is AskPassword,
        ensures
            final(self)@.inv(),
            final(self)@ == spec_step_key(old(self)@, k).0,
            r@ == spec_step_key(old(self)@, k).1,
    {
        match k {
            Key::Esc => {
                self.password.clear();
                self.pending = Action::Idle;
                self.state = UIState::Main;
                proof {
                    assert(self@ =~= spec_step_key(old(self)@, k).0);
                }
                Step::Continue
            },
            Key::Tab => {
                self.show_password = !self.show_password;
                proof {
                    assert(self@ =~= spec_step_key(old(self)@, k).0);
                }
                Step::Continue
            },
            Key::Backspace => {
                if self.password.len() > 0 {
                    self.password.pop();
                }
                proof {
                    assert(self@ =~= spec_step_key(old(self)@, k).0);
                }
                Step::Continue
            },
            Key::Enter => {
                match &self.pending {
                    Action::SetOrder(ids) => {
                        let arg = join_ids_chars(ids);
                        Step::Invoke(Invocation::SetOrder(arg))
                    },
                    Action::BootOnce(id) => {
                        let arg = hex4_chars(*id);
                        Step::Invoke(Invocation::BootOnce(arg))
                    },
                    Action::Idle => {
                        self.state = UIState::Main;
                        proof {
                            assert(self@ =~= spec_step_key(old(self)@, k).0);
                        }
                        Step::Continue
                    },
                }
            },
            Key::Char(c) => {
                self.password.push(c);
                proof {
                    assert(self@ =~= spec_step_key(old(self)@, k).0);
                }
                Step::Continue
            },
            _ => Step::Continue,
        }
    }

    /// One key press in the reboot confirmation.
    fn key_confirm_reboot(&mut self, k: Key) -> (r: Step)
        requires
            old(self)@.inv(),
            old(self)@.state is ConfirmReboot,
        ensures
            final(self)@.inv(),
            final(self)@ == spec_step_key(old(self)@, k).0,
            r@ == spec_step_key(old(self)@, k).1,
    {
        match k {
            Key::Esc => {
                self.state = UIState::Main;
                proof {
                    assert(self@ =~= spec_step_key(old(self)@, k).0);
                }
            },
            Key::Left | Key::Right | Key::Tab => {
                self.reboot_yes = !self.reboot_yes;
                proof {
                    assert(self@ =~= spec_step_key(old(self)@, k).0);
                }
            },
            Key::Enter => {
                if self.reboot_yes {
                    self.state = UIState::CountdownReboot(5);
                } else {
                    self.state = UIState::Main;
                }
                proof {
                    assert(self@ =~= spec_step_key(old(self)@, k).0);
                }
            },
            _ => {},
        }
        Step::Continue
    }

    /// One key press in the quit confirmation.
    fn key_quit_confirm(&mut self, k: Key) -> (r: Step)
        requires
            old(self)@.inv(),
            old(self)@.state is QuitConfirm,
        ensures
            final(self)@.inv(),
            final(self)@ == spec_step_key(old(self)@, k).0,
            r@ == spec_step_key(old(self)@, k).1,
    {
        match k {
            Key::Esc => {
                self.state = UIState::Main;
                proof {
                    assert(self@ =~= spec_step_key(old(self)@, k).0);
                }
                Step::Continue
            },
            Key::Left | Key::Right | Key::Tab => {
                self.quit_yes = !self.quit_yes;
                proof {
                    assert(self@ =~= spec_step_key(old(self)@, k).0);
                }
                Step::Continue
            },
            Key::Enter => {
                if self.quit_yes {
                    Step::Exit
                } else {
                    self.state = UIState::Main;
                    proof {
                        assert(self@ =~= spec_step_key(old(self)@, k).0);
                    }
                    Step::Continue
                }
            },
            _ => Step::Continue,
        }
    }

    /// React to one key press: the transition of the current screen, as
    /// `spec_step_key` gives it.
    pub fn handle_key(&mut self, k: Key) -> (r: Step)
        requires
            old(self)@.inv(),
        ensures
            final(self)@.inv(),
            final(self)@ == spec_step_key(old(self)@, k).0,
            r@ == spec_step_key(old(self)@, k).1,
    {
        if matches!(self.state, UIState::Main) {
            self.key_main(k)
        } else if matches!(self.state, UIState::AskPassword) {
            self.key_ask(k)
        } else if matches!(self.state, UIState::PasswordError) {
            self.password.clear();
            self.state = UIState::AskPassword;
            proof {
                assert(self@ =~= spec_step_key(old(self)@, k).0);
            }
            Step::Continue
        } else if matches!(self.state, UIState::ConfirmReboot) {
            self.key_confirm_reboot(k)
        } else if matches!(self.state, UIState::CountdownReboot(_)) {
            if matches!(k, Key::Esc) {
                self.state = UIState::Main;
                proof {
                    assert(self@ =~= spec_step_key(old(self)@, k).0);
                }
            }
            Step::Continue
        } else if matches!(self.state, UIState::QuitConfirm) {
            self.key_quit_confirm(k)
        } else if matches!(self.state, UIState::Help) {
            self.state = UIState::Main;
            proof {
                assert(self@ =~= spec_step_key(old(self)@, k).0);
            }
            Step::Continue
        } else {
            self.state = UIState::AskPassword;
            proof {
                assert(self@ =~= spec_step_key(old(self)@, k).0);
            }
            Step::Continue
        }
    }

    /// React to one elapsed second, as `spec_step_tick` gives it: a
    /// running countdown loses one second; at one remaining second the
    /// caller is told to reboot.
    pub fn tick(&mut self) -> (r: Step)
        requires
            old(self)@.inv(),
        ensures
            final(self)@.inv(),
            final(self)@ == spec_step_tick(old(self)@).0,
            r@ == spec_step_tick(old(self)@).1,
    {
        if let UIState::CountdownReboot(n) = self.state {
            if n > 1 {
                self.state = UIState::CountdownReboot(n - 1);
                proof {
                    assert(self@ =~= spec_step_tick(old(self)@).0);
                }
                Step::Continue
            } else {
                Step::Reboot
            }
        } else {
            Step::Continue
        }
    }

    /// Fold the outcome of the invoked privileged command into the next
    /// screen, as `spec_apply_outcome` gives it, clearing the secret
    /// buffer whatever the outcome was.
    pub fn apply_outcome(&mut self, outcome: CommandOutcome)
        requires
            old(self)@.inv(),
        ensures
            final(self)@.inv(),
            final(self)@ == spec_apply_outcome(old(self)@, outcome@),
    {
        let st = match &self.pending {
            Action::SetOrder(_) => execute_set_boot_order(outcome),
            Action::BootOnce(_) => execute_boot_once(outcome),
            Action::Idle => UIState::Main,
        };
        if matches!(st, UIState::ConfirmReboot) {
            self.reboot_yes = true;
        }
        self.password.clear();
        self.state = st;
        proof {
            assert(self@ =~= spec_apply_outcome(old(self)@, outcome@));
        }
    }
}

} // verus!
