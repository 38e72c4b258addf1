use vstd::prelude::*;
use vstd::string::{StrSliceExecFns, StringExecFns};

use crate::config::{
    has_name, lemma_sorted_by_display, name_index, sorted_by_display, texts, Config, ProgramEntry,
    ProgramEntryView,
};
use crate::text::{
    combine_output, combined_output, decode_lossy, from_text, join3, join_text, lossy_text, pop_char,
    push_char, split_words, whitespace_words,
};
use crate::wizard::{
    advanced, field_value, fresh_wizard, with_value, AddProgramForm, WizardView, REVIEW_STEP,
};

verus! {

/// What the dashboard is showing and which keys it listens to.
#[derive(Clone, Copy, Debug, PartialEq, Eq, Structural)]
pub enum Mode {
    Normal,
    AddProgram,
    Help,
    ShowOutput,
}

/// A key press, as far as the dashboard tells keys apart.
#[derive(Clone, Copy, Debug, PartialEq, Eq, Structural)]
pub enum Key {
    Char(char),
    Enter,
    Esc,
    Backspace,
    Up,
    Down,
    Other,
}

/// How to run a program: the executable, its arguments, and whether its
/// output is captured for the viewer (else it runs in the foreground).
#[derive(Debug)]
pub struct LaunchPlan {
    pub display_name: String,
    pub program: String,
    pub args: Vec<String>,
    pub capture: bool,
}

pub struct LaunchPlanView {
    pub display_name: Seq<char>,
    pub program: Seq<char>,
    pub args: Seq<Seq<char>>,
    pub capture: bool,
}

impl View for LaunchPlan {
    type V = LaunchPlanView;

    open spec fn view(&self) -> LaunchPlanView {
        LaunchPlanView {
            display_name: self.display_name@,
            program: self.program@,
            args: texts(self.args@),
            capture: self.capture,
        }
    }
}

/// Which change to the store is waiting to be written out, with the
/// display name of the program concerned.
#[derive(Debug)]
pub enum Saved {
    Added(String),
    Deleted(String),
}

pub enum SavedView {
    Added(Seq<char>),
    Deleted(Seq<char>),
}

impl View for Saved {
    type V = SavedView;

    open spec fn view(&self) -> SavedView {
        match self {
            Saved::Added(n) => SavedView::Added(n@),
            Saved::Deleted(n) => SavedView::Deleted(n@),
        }
    }
}

/// What the caller is to do after a key press.
#[derive(Debug)]
pub enum Action {
    Continue,
    Quit,
    Launch(LaunchPlan),
    Save(Saved),
    Reload,
}

pub enum ActionView {
    Continue,
    Quit,
    Launch(LaunchPlanView),
    Save(SavedView),
    Reload,
}

impl View for Action {
    type V = ActionView;

    open spec fn view(&self) -> ActionView {
        match self {
            Action::Continue => ActionView::Continue,
            Action::Quit => ActionView::Quit,
            Action::Launch(p) => ActionView::Launch(p@),
            Action::Save(s) => ActionView::Save(s@),
            Action::Reload => ActionView::Reload,
        }
    }
}

/// The dashboard's whole state.
#[derive(Debug)]
pub struct Dashboard {
    pub config: Config,
    pub selected_index: usize,
    pub mode: Mode,
    pub add_form: AddProgramForm,
    pub status_message: Option<String>,
    pub output_data: Option<(String, String)>,
}

pub struct DashboardView {
    pub config: Seq<ProgramEntryView>,
    pub selected: int,
    pub mode: Mode,
    pub form: WizardView,
    pub status: Option<Seq<char>>,
    pub output: Option<(Seq<char>, Seq<char>)>,
}

impl View for Dashboard {
    type V = DashboardView;

    open spec fn view(&self) -> DashboardView {
        DashboardView {
            config: self.config@,
            selected: self.selected_index as int,
            mode: self.mode,
            form: self.add_form@,
            status: match self.status_message {
                Some(s) => Some(s@),
                None => None,
            },
            output: match self.output_data {
                Some((n, o)) => Some((n@, o@)),
                None => None,
            },
        }
    }
}

/// The selection after moving down: the next row, wrapping to the first.
pub open spec fn down_index(sel: int, len: int) -> int {
    if len > 0 {
        (sel + 1) % len
    } else {
        sel
    }
}

/// The selection after moving up: the previous row, wrapping to the last.
pub open spec fn up_index(sel: int, len: int) -> int {
    if len > 0 {
        if sel == 0 {
            len - 1
        } else {
            sel - 1
        }
    } else {
        sel
    }
}

/// The selection after the list shrank to `new_len` rows.
pub open spec fn clamped(sel: int, new_len: int) -> int {
    if new_len > 0 && sel >= new_len {
        new_len - 1
    } else {
        sel
    }
}

/// What the menu shows, in order.
pub open spec fn menu(v: DashboardView) -> Seq<ProgramEntryView> {
    sorted_by_display(v.config)
}

/// The executable that runs an entry: `sudo` when it asks for it.
pub open spec fn plan_program(e: ProgramEntryView) -> Seq<char> {
    if e.run_with_sudo {
        "sudo"@
    } else {
        e.command
    }
}

/// The arguments of that executable: under `sudo`, the command comes first.
pub open spec fn plan_args(e: ProgramEntryView) -> Seq<Seq<char>> {
    if e.run_with_sudo {
        seq![e.command] + e.args
    } else {
        e.args
    }
}

pub open spec fn plan_of(e: ProgramEntryView) -> LaunchPlanView {
    LaunchPlanView {
        display_name: e.display_name,
        program: plan_program(e),
        args: plan_args(e),
        capture: e.show_output,
    }
}

/// The dashboard after the selected row is deleted (when a row is selected).
pub open spec fn after_delete(v: DashboardView) -> DashboardView {
    let m = menu(v);
    if 0 <= v.selected < m.len() {
        DashboardView {
            config: v.config.remove(name_index(v.config, m[v.selected].name)),
            selected: clamped(v.selected, m.len() - 1),
            ..v
        }
    } else {
        v
    }
}

/// The entry that the wizard's answers describe.
pub open spec fn entry_of(f: WizardView) -> ProgramEntryView {
    ProgramEntryView {
        name: f.name,
        display_name: f.display_name,
        command: f.command,
        args: if f.args.len() == 0 {
            Seq::empty()
        } else {
            whitespace_words(f.args)
        },
        description: if f.description.len() == 0 {
            None
        } else {
            Some(f.description)
        },
        run_with_sudo: f.run_with_sudo,
        show_output: f.show_output,
    }
}

/// The store after `e` is stored under its name.
pub open spec fn stored(s: Seq<ProgramEntryView>, e: ProgramEntryView) -> Seq<ProgramEntryView> {
    if has_name(s, e.name) {
        s.update(name_index(s, e.name), e)
    } else {
        s.push(e)
    }
}

pub open spec fn is_quit(k: Key) -> bool {
    k == Key::Char('q') || k == Key::Esc
}

pub open spec fn is_down(k: Key) -> bool {
    k == Key::Char('j') || k == Key::Down
}

pub open spec fn is_up(k: Key) -> bool {
    k == Key::Char('k') || k == Key::Up
}

/// The effect of a key in the menu.
pub open spec fn normal_step(v0: DashboardView, v1: DashboardView, key: Key, r: ActionView) -> bool {
    let m = menu(v0);
    if is_quit(key) {
        r == ActionView::Quit && v1 == v0
    } else if is_down(key) {
        r == ActionView::Continue && v1 == DashboardView {
            selected: down_index(v0.selected, m.len() as int),
            ..v0
        }
    } else if is_up(key) {
        r == ActionView::Continue && v1 == DashboardView {
            selected: up_index(v0.selected, m.len() as int),
            ..v0
        }
    } else if key == Key::Enter {
        v1 == v0 && if 0 <= v0.selected < m.len() {
            r == ActionView::Launch(plan_of(m[v0.selected]))
        } else {
            r == ActionView::Continue
        }
    } else if key == Key::Char('a') {
        r == ActionView::Continue && v1 == DashboardView {
            mode: Mode::AddProgram,
            form: fresh_wizard(),
            ..v0
        }
    } else if key == Key::Char('d') {
        v1 == after_delete(v0) && if 0 <= v0.selected < m.len() {
            r == ActionView::Save(SavedView::Deleted(m[v0.selected].display_name))
        } else {
            r == ActionView::Continue
        }
    } else if key == Key::Char('h') {
        r == ActionView::Continue && v1 == DashboardView { mode: Mode::Help, ..v0 }
    } else if key == Key::Char('r') {
        r == ActionView::Reload && v1 == v0
    } else {
        r == ActionView::Continue && v1 == v0
    }
}

/// The text of a field after its last character is erased.
pub open spec fn erased(s: Seq<char>) -> Seq<char> {
    if s.len() == 0 {
        s
    } else {
        s.drop_last()
    }
}

pub open spec fn is_yes_no(c: char) -> bool {
    c == 'y' || c == 'Y' || c == 'n' || c == 'N'
}

/// The wizard after a key that edits the current field.
pub open spec fn edited(f: WizardView, key: Key) -> WizardView {
    if f.step >= 7 {
        f
    } else {
        match key {
            Key::Backspace => with_value(f, erased(field_value(f))),
            Key::Char(c) => if f.step == 5 || f.step == 6 {
                if is_yes_no(c) {
                    with_value(f, seq![c])
                } else {
                    f
                }
            } else {
                with_value(f, field_value(f).push(c))
            },
            _ => f,
        }
    }
}

/// The effect of a key in the wizard.
pub open spec fn wizard_step(v0: DashboardView, v1: DashboardView, key: Key, r: ActionView) -> bool {
    if key == Key::Esc {
        r == ActionView::Continue && v1 == DashboardView {
            mode: Mode::Normal,
            form: fresh_wizard(),
            ..v0
        }
    } else if key == Key::Enter {
        let f = advanced(v0.form);
        if f.step == 7 && v0.form.step == 6 {
            r == ActionView::Save(SavedView::Added(f.display_name)) && v1 == DashboardView {
                config: stored(v0.config, entry_of(f)),
                mode: Mode::Normal,
                form: fresh_wizard(),
                ..v0
            }
        } else {
            r == ActionView::Continue && v1 == DashboardView { form: f, ..v0 }
        }
    } else {
        r == ActionView::Continue && v1 == DashboardView { form: edited(v0.form, key), ..v0 }
    }
}

/// The effect of a key on the help screen: any key returns to the menu.
pub open spec fn help_step(v0: DashboardView, v1: DashboardView) -> bool {
    v1 == DashboardView { mode: Mode::Normal, ..v0 }
}

pub open spec fn closes_output(k: Key) -> bool {
    k == Key::Esc || k == Key::Char(' ') || k == Key::Char('q')
}

/// The effect of a key in the output viewer.
pub open spec fn output_step(v0: DashboardView, v1: DashboardView, key: Key) -> bool {
    if closes_output(key) {
        v1 == DashboardView { mode: Mode::Normal, output: None, ..v0 }
    } else {
        v1 == v0
    }
}

/// The effect of any key, by mode.
pub open spec fn key_step(v0: DashboardView, v1: DashboardView, key: Key, r: ActionView) -> bool {
    match v0.mode {
        Mode::Normal => normal_step(v0, v1, key, r),
        Mode::AddProgram => wizard_step(v0, v1, key, r),
        Mode::Help => r == ActionView::Continue && help_step(v0, v1),
        Mode::ShowOutput => r == ActionView::Continue && output_step(v0, v1, key),
    }
}

/// Copies a display name, or any other text.
fn copy(s: &String) -> (r: String)
    ensures
        r@ == s@,
{
    s.clone()
}

/// The plan for running `e`.
pub fn launch_plan(e: &ProgramEntry) -> (r: LaunchPlan)
    ensures
        r@ == plan_of(e@),
{
    let mut args: Vec<String> = Vec::new();
    if e.run_with_sudo {
        args.push(copy(&e.command));
    }
    let ghost first = args@;
    let mut i: usize = 0;
    while i < e.args.len()
        invariant
            i <= e.args@.len(),
            args@.len() == first.len() + i,
            texts(args@) == texts(first) + texts(e.args@.take(i as int)),
        decreases e.args@.len() - i,
    {
        let ghost before = args@;
        args.push(e.args[i].clone());
        assert(args@ == before.push(e.args@[i as int]));
        assert forall|k: int| 0 <= k < args@.len() implies #[trigger] texts(args@)[k] == (texts(
            first,
        ) + texts(e.args@.take(i + 1)))[k] by {
            if k < before.len() {
                assert(texts(before)[k] == (texts(first) + texts(e.args@.take(i as int)))[k]);
            }
        }
        assert(texts(args@) =~= texts(first) + texts(e.args@.take(i + 1)));
        i += 1;
    }
    assert(e.args@.take(e.args@.len() as int) =~= e.args@);
    let program = if e.run_with_sudo {
        from_text("sudo")
    } else {
        copy(&e.command)
    };
    proof {
        if e.run_with_sudo {
            assert(texts(first) =~= seq![e.command@]);
        } else {
            assert(texts(first) =~= Seq::<Seq<char>>::empty());
        }
        assert(texts(args@) =~= plan_args(e@));
    }
    LaunchPlan { display_name: copy(&e.display_name), program, args, capture: e.show_output }
}

impl Dashboard {
    pub open spec fn wf(&self) -> bool {
        &&& self.config.wf()
        &&& self.add_form.wf()
        &&& (self.selected_index < self.config@.len() || self.selected_index == 0)
    }

    /// A dashboard over `config`, in the menu with the first row selected.
    pub fn new(config: Config) -> (r: Dashboard)
        requires
            config.wf(),
        ensures
            r.wf(),
            r@ == (DashboardView {
                config: config@,
                selected: 0,
                mode: Mode::Normal,
                form: fresh_wizard(),
                status: None,
                output: None,
            }),
    {
        Dashboard {
            config,
            selected_index: 0,
            mode: Mode::Normal,
            add_form: AddProgramForm::new(),
            status_message: None,
            output_data: None,
        }
    }

    /// Handles one key press in the current mode.
    pub fn handle_key(&mut self, key: Key) -> (r: Action)
        requires
            old(self).wf(),
        ensures
            final(self).wf(),
            key_step(old(self)@, final(self)@, key, r@),
    {
        match self.mode {
            Mode::Normal => self.handle_normal_mode(key),
            Mode::AddProgram => self.handle_add_program_mode(key),
            Mode::Help => {
                self.handle_help_mode(key);
                Action::Continue
            },
            Mode::ShowOutput => {
                self.handle_show_output_mode(key);
                Action::Continue
            },
        }
    }

    /// Handles a key in the menu.
    pub fn handle_normal_mode(&mut self, key: Key) -> (r: Action)
        requires
            old(self).wf(),
        ensures
            final(self).wf(),
            normal_step(old(self)@, final(self)@, key, r@),
    {
        proof {
            lemma_sorted_by_display(self.config@);
        }
        let len = self.config.programs.len();
        match key {
            Key::Char('q') | Key::Esc => Action::Quit,
            Key::Char('j') | Key::Down => {
                if len > 0 {
                    self.selected_index = (self.selected_index + 1) % len;
                }
                Action::Continue
            },
            Key::Char('k') | Key::Up => {
                if len > 0 {
                    self.selected_index = if self.selected_index == 0 {
                        len - 1
                    } else {
                        self.selected_index - 1
                    };
                }
                Action::Continue
            },
            Key::Enter => match self.launch_selected_program() {
                Some(plan) => Action::Launch(plan),
                None => Action::Continue,
            },
            Key::Char('a') => {
                self.mode = Mode::AddProgram;
                self.add_form.reset();
                Action::Continue
            },
            Key::Char('d') => match self.delete_selected_program() {
                Some(name) => Action::Save(Saved::Deleted(name)),
                None => Action::Continue,
            },
            Key::Char('h') => {
                self.mode = Mode::Help;
                Action::Continue
            },
            Key::Char('r') => Action::Reload,
            _ => Action::Continue,
        }
    }

    /// Handles a key in the wizard. Leaving step 6 with the required fields
    /// filled in stores the new program and returns to the menu.
    pub fn handle_add_program_mode(&mut self, key: Key) -> (r: Action)
        requires
            old(self).wf(),
        ensures
            final(self).wf(),
            wizard_step(old(self)@, final(self)@, key, r@),
    {
        match key {
            Key::Esc => {
                self.mode = Mode::Normal;
                self.add_form.reset();
                Action::Continue
            },
            Key::Enter => {
                if self.add_form.step < REVIEW_STEP {
                    let was_last = self.add_form.step == 6;
                    if self.add_form.advance() && was_last {
                        let name = self.save_new_program();
                        self.mode = Mode::Normal;
                        return Action::Save(Saved::Added(name));
                    }
                }
                Action::Continue
            },
            Key::Backspace => {
                if self.add_form.step < REVIEW_STEP {
                    let mut current = from_text(self.add_form.current_value());
                    let _ = pop_char(&mut current);
                    self.add_form.set_current_value(current);
                }
                Action::Continue
            },
            Key::Char(c) => {
                if self.add_form.step < REVIEW_STEP {
                    if self.add_form.step == 5 || self.add_form.step == 6 {
                        if c == 'y' || c == 'Y' || c == 'n' || c == 'N' {
                            let mut answer = String::new();
                            push_char(&mut answer, c);
                            self.add_form.set_current_value(answer);
                        }
                    } else {
                        let mut current = from_text(self.add_form.current_value());
                        push_char(&mut current, c);
                        self.add_form.set_current_value(current);
                    }
                }
                Action::Continue
            },
            _ => Action::Continue,
        }
    }

    /// Any key leaves the help screen.
    pub fn handle_help_mode(&mut self, _key: Key)
        ensures
            help_step(old(self)@, final(self)@),
            final(self).config == old(self).config,
            final(self).selected_index == old(self).selected_index,
            final(self).add_form == old(self).add_form,
    {
        self.mode = Mode::Normal;
    }

    /// Escape, space or `q` closes the output viewer and drops the output.
    pub fn handle_show_output_mode(&mut self, key: Key)
        ensures
            output_step(old(self)@, final(self)@, key),
            final(self).config == old(self).config,
            final(self).selected_index == old(self).selected_index,
            final(self).add_form == old(self).add_form,
    {
        match key {
            Key::Esc | Key::Char(' ') | Key::Char('q') => {
                self.mode = Mode::Normal;
                self.output_data = None;
            },
            _ => {},
        }
    }

    /// The plan for running the selected program, if a row is selected.
    pub fn launch_selected_program(&self) -> (r: Option<LaunchPlan>)
        requires
            self.wf(),
        ensures
            0 <= self.selected_index < menu(self@).len() ==> r is Some && r->Some_0@ == plan_of(
                menu(self@)[self.selected_index as int],
            ),
            self.selected_index >= menu(self@).len() ==> r is None,
    {
        let programs = self.config.get_programs();
        if self.selected_index < programs.len() {
            let e = programs[self.selected_index];
            assert(e@ == menu(self@)[self.selected_index as int]);
            Some(launch_plan(e))
        } else {
            None
        }
    }

    /// Removes the selected program from the store and keeps the selection
    /// within the shorter list; returns the removed program's display name.
    pub fn delete_selected_program(&mut self) -> (r: Option<String>)
        requires
            old(self).wf(),
        ensures
            final(self).wf(),
            final(self)@ == after_delete(old(self)@),
            0 <= old(self).selected_index < menu(old(self)@).len() ==> r is Some && r->Some_0@
                == menu(old(self)@)[old(self).selected_index as int].display_name,
            old(self).selected_index >= menu(old(self)@).len() ==> r is None,
    {
        proof {
            lemma_sorted_by_display(self.config@);
        }
        let ghost v0 = self@;
        let programs = self.config.get_programs();
        if self.selected_index < programs.len() {
            let e = programs[self.selected_index];
            let name = copy(&e.name);
            let display_name = copy(&e.display_name);
            let len = programs.len();
            proof {
                let m = menu(v0);
                assert(e@ == m[v0.selected]);
                assert(v0.config.contains(m[v0.selected]));
                let j = choose|j: int| 0 <= j < v0.config.len() && v0.config[j] == m[v0.selected];
                assert(has_name(v0.config, name@));
            }
            self.config.remove_program(name.as_str());
            let new_len = len - 1;
            if new_len > 0 && self.selected_index >= new_len {
                self.selected_index = new_len - 1;
            }
            Some(display_name)
        } else {
            None
        }
    }

    /// Stores the program that the wizard describes and resets the wizard;
    /// returns the new program's display name.
    pub fn save_new_program(&mut self) -> (r: String)
        requires
            old(self).wf(),
        ensures
            final(self).wf(),
            r@ == old(self).add_form.display_name@,
            final(self)@ == (DashboardView {
                config: stored(old(self)@.config, entry_of(old(self)@.form)),
                form: fresh_wizard(),
                ..old(self)@
            }),
    {
        let args: Vec<String> = if self.add_form.args.unicode_len() == 0 {
            Vec::new()
        } else {
            split_words(self.add_form.args.as_str())
        };
        let description = if self.add_form.description.unicode_len() == 0 {
            None
        } else {
            Some(copy(&self.add_form.description))
        };
        let entry = ProgramEntry {
            name: copy(&self.add_form.name),
            display_name: copy(&self.add_form.display_name),
            command: copy(&self.add_form.command),
            args,
            description,
            run_with_sudo: self.add_form.run_with_sudo,
            show_output: self.add_form.show_output,
        };
        proof {
            if self.add_form.args@.len() == 0 {
                assert(texts(entry.args@) =~= Seq::<Seq<char>>::empty());
            }
            assert(entry@ == entry_of(self.add_form@));
        }
        let display_name = copy(&self.add_form.display_name);
        self.config.add_program(entry);
        self.add_form.reset();
        display_name
    }

    /// Takes the store read back from disk, or reports why it could not be
    /// read and keeps the current one.
    pub fn reload_config(&mut self, loaded: Result<Config, String>)
        requires
            old(self).wf(),
            loaded matches Ok(c) ==> c.wf(),
        ensures
            final(self).wf(),
            match loaded {
                Ok(c) => final(self)@ == (DashboardView {
                    config: c@,
                    selected: 0,
                    status: Some("Configuration reloaded"@),
                    ..old(self)@
                }),
                Err(e) => final(self)@ == (DashboardView {
                    status: Some("Error reloading config: "@ + e@),
                    ..old(self)@
                }),
            },
    {
        match loaded {
            Ok(config) => {
                self.config = config;
                self.selected_index = 0;
                self.status_message = Some(from_text("Configuration reloaded"));
            },
            Err(e) => {
                self.status_message = Some(join_text("Error reloading config: ", e.as_str()));
            },
        }
    }

    /// Reports how writing the store out went.
    pub fn record_save(&mut self, saved: Saved, result: Result<(), String>)
        requires
            old(self).wf(),
        ensures
            final(self).wf(),
            final(self)@ == (DashboardView {
                status: Some(
                    match result {
                        Err(e) => "Error saving config: "@ + e@,
                        Ok(_) => match saved@ {
                            SavedView::Added(n) => "Added: "@ + n,
                            SavedView::Deleted(n) => "Deleted: "@ + n,
                        },
                    },
                ),
                ..old(self)@
            }),
    {
        let message = match result {
            Err(e) => join_text("Error saving config: ", e.as_str()),
            Ok(_) => match saved {
                Saved::Added(n) => join_text("Added: ", n.as_str()),
                Saved::Deleted(n) => join_text("Deleted: ", n.as_str()),
            },
        };
        self.status_message = Some(message);
    }

    /// Reports a foreground run that finished.
    pub fn record_foreground_run(&mut self, display_name: &str, success: bool)
        requires
            old(self).wf(),
        ensures
            final(self).wf(),
            final(self)@ == (DashboardView {
                status: Some(
                    if success {
                        "Executed: "@ + display_name@
                    } else {
                        "Failed to execute: "@ + display_name@
                    },
                ),
                ..old(self)@
            }),
    {
        let message = if success {
            join_text("Executed: ", display_name)
        } else {
            join_text("Failed to execute: ", display_name)
        };
        self.status_message = Some(message);
    }

    /// Reports a program that could not be started.
    pub fn record_launch_error(&mut self, display_name: &str, error: &str)
        requires
            old(self).wf(),
        ensures
            final(self).wf(),
            final(self)@ == (DashboardView {
                status: Some("Error launching "@ + display_name@ + ": "@ + error@),
                ..old(self)@
            }),
    {
        let mut message = join3("Error launching ", display_name, ": ");
        message.append(error);
        self.status_message = Some(message);
    }

    /// Opens the output viewer on a captured run's output.
    pub fn show_output(&mut self, display_name: &str, stdout: &str, stderr: &str, success: bool)
        requires
            old(self).wf(),
        ensures
            final(self).wf(),
            final(self)@ == (DashboardView {
                mode: Mode::ShowOutput,
                output: Some((display_name@, combined_output(stdout@, stderr@))),
                status: Some(
                    if success {
                        "Executed: "@ + display_name@
                    } else {
                        "Executed with errors: "@ + display_name@
                    },
                ),
                ..old(self)@
            }),
    {
        let text = combine_output(stdout, stderr);
        self.output_data = Some((from_text(display_name), text));
        self.mode = Mode::ShowOutput;
        let message = if success {
            join_text("Executed: ", display_name)
        } else {
            join_text("Executed with errors: ", display_name)
        };
        self.status_message = Some(message);
    }

    /// Opens the output viewer on a captured run's raw output, decoded as
    /// UTF-8 with invalid sequences replaced.
    pub fn record_captured_run(
        &mut self,
        display_name: &str,
        stdout: &Vec<u8>,
        stderr: &Vec<u8>,
        success: bool,
    )
        requires
            old(self).wf(),
        ensures
            final(self).wf(),
            final(self)@ == (DashboardView {
                mode: Mode::ShowOutput,
                output: Some(
                    (display_name@, combined_output(lossy_text(stdout@), lossy_text(stderr@))),
                ),
                status: Some(
                    if success {
                        "Executed: "@ + display_name@
                    } else {
                        "Executed with errors: "@ + display_name@
                    },
                ),
                ..old(self)@
            }),
    {
        let out = decode_lossy(stdout);
        let err = decode_lossy(stderr);
        self.show_output(display_name, out.as_str(), err.as_str(), success);
    }
}

} // verus!
