use vstd::prelude::*;
use vstd::string::StrSliceExecFns;

verus! {

/// The number of the review step, which follows the seven editable steps.
pub const REVIEW_STEP: usize = 7;

/// The wizard's state as plain values.
pub struct WizardView {
    pub step: int,
    pub name: Seq<char>,
    pub display_name: Seq<char>,
    pub command: Seq<char>,
    pub args: Seq<char>,
    pub description: Seq<char>,
    pub run_with_sudo: bool,
    pub show_output: bool,
}

/// The add-program wizard: steps 0 to 6 each edit one field (name, display
/// name, command, arguments, description, sudo flag, output flag); step 7 is
/// the review.
#[derive(Debug)]
pub struct AddProgramForm {
    pub step: usize,
    pub name: String,
    pub display_name: String,
    pub command: String,
    pub args: String,
    pub description: String,
    pub run_with_sudo: bool,
    pub show_output: bool,
}

impl View for AddProgramForm {
    type V = WizardView;

    open spec fn view(&self) -> WizardView {
        WizardView {
            step: self.step as int,
            name: self.name@,
            display_name: self.display_name@,
            command: self.command@,
            args: self.args@,
            description: self.description@,
            run_with_sudo: self.run_with_sudo,
            show_output: self.show_output,
        }
    }
}

/// The wizard at its start: step 0, every text empty, both flags off.
pub open spec fn fresh_wizard() -> WizardView {
    WizardView {
        step: 0,
        name: Seq::empty(),
        display_name: Seq::empty(),
        command: Seq::empty(),
        args: Seq::empty(),
        description: Seq::empty(),
        run_with_sudo: false,
        show_output: false,
    }
}

/// The prompt shown at a step.
pub open spec fn field_label(step: int) -> Seq<char> {
    if step == 0 {
        "Program Name (identifier)"@
    } else if step == 1 {
        "Display Name (what appears on dashboard)"@
    } else if step == 2 {
        "Command (executable path or name)"@
    } else if step == 3 {
        "Arguments (optional, space-separated)"@
    } else if step == 4 {
        "Description (optional)"@
    } else if step == 5 {
        "Run with sudo? (y/n)"@
    } else if step == 6 {
        "Show output result? (y/n)"@
    } else {
        "Review"@
    }
}

pub open spec fn flag_text(b: bool) -> Seq<char> {
    if b {
        "y"@
    } else {
        "n"@
    }
}

/// The text being edited at the current step.
pub open spec fn field_value(f: WizardView) -> Seq<char> {
    if f.step == 0 {
        f.name
    } else if f.step == 1 {
        f.display_name
    } else if f.step == 2 {
        f.command
    } else if f.step == 3 {
        f.args
    } else if f.step == 4 {
        f.description
    } else if f.step == 5 {
        flag_text(f.run_with_sudo)
    } else if f.step == 6 {
        flag_text(f.show_output)
    } else {
        Seq::empty()
    }
}

/// A yes/no answer counts as yes when it starts with `y` in either case.
pub open spec fn is_yes(v: Seq<char>) -> bool {
    v.len() > 0 && (v[0] == 'y' || v[0] == 'Y')
}

/// The wizard after the current step's field is set to `v`; a flag step
/// reads `v` as a yes/no answer.
pub open spec fn with_value(f: WizardView, v: Seq<char>) -> WizardView {
    if f.step == 0 {
        WizardView { name: v, ..f }
    } else if f.step == 1 {
        WizardView { display_name: v, ..f }
    } else if f.step == 2 {
        WizardView { command: v, ..f }
    } else if f.step == 3 {
        WizardView { args: v, ..f }
    } else if f.step == 4 {
        WizardView { description: v, ..f }
    } else if f.step == 5 {
        WizardView { run_with_sudo: is_yes(v), ..f }
    } else if f.step == 6 {
        WizardView { show_output: is_yes(v), ..f }
    } else {
        f
    }
}

/// The three required fields are filled in.
pub open spec fn complete(f: WizardView) -> bool {
    f.name.len() > 0 && f.display_name.len() > 0 && f.command.len() > 0
}

/// One step forward: always from steps 0 to 5, from step 6 only when the
/// required fields are filled in, never from the review step.
pub open spec fn advanced(f: WizardView) -> WizardView {
    if f.step < 6 || (f.step == 6 && complete(f)) {
        WizardView { step: f.step + 1, ..f }
    } else {
        f
    }
}

fn answer_is_yes(value: &str) -> (r: bool)
    ensures
        r == is_yes(value@),
{
    if value.unicode_len() == 0 {
        false
    } else {
        let c = value.get_char(0);
        c == 'y' || c == 'Y'
    }
}

impl AddProgramForm {
    pub open spec fn wf(&self) -> bool {
        self.step <= REVIEW_STEP
    }

    pub fn new() -> (r: AddProgramForm)
        ensures
            r@ == fresh_wizard(),
    {
        AddProgramForm {
            step: 0,
            name: String::new(),
            display_name: String::new(),
            command: String::new(),
            args: String::new(),
            description: String::new(),
            run_with_sudo: false,
            show_output: false,
        }
    }

    pub fn reset(&mut self)
        ensures
            final(self)@ == fresh_wizard(),
    {
        *self = Self::new();
    }

    /// The prompt for the current step.
    pub fn current_field(&self) -> (r: &str)
        ensures
            r@ == field_label(self.step as int),
    {
        match self.step {
            0 => "Program Name (identifier)",
            1 => "Display Name (what appears on dashboard)",
            2 => "Command (executable path or name)",
            3 => "Arguments (optional, space-separated)",
            4 => "Description (optional)",
            5 => "Run with sudo? (y/n)",
            6 => "Show output result? (y/n)",
            _ => "Review",
        }
    }

    /// The text being edited at the current step (`y` or `n` at a flag step).
    pub fn current_value(&self) -> (r: &str)
        ensures
            r@ == field_value(self@),
    {
        match self.step {
            0 => self.name.as_str(),
            1 => self.display_name.as_str(),
            2 => self.command.as_str(),
            3 => self.args.as_str(),
            4 => self.description.as_str(),
            5 => if self.run_with_sudo {
                "y"
            } else {
                "n"
            },
            6 => if self.show_output {
                "y"
            } else {
                "n"
            },
            _ => {
                proof {
                    reveal_strlit("");
                }
                assert(""@ =~= Seq::<char>::empty());
                ""
            },
        }
    }

    /// Replaces the current step's field with `value`.
    pub fn set_current_value(&mut self, value: String)
        ensures
            final(self)@ == with_value(old(self)@, value@),
    {
        match self.step {
            0 => self.name = value,
            1 => self.display_name = value,
            2 => self.command = value,
            3 => self.args = value,
            4 => self.description = value,
            5 => self.run_with_sudo = answer_is_yes(value.as_str()),
            6 => self.show_output = answer_is_yes(value.as_str()),
            _ => {},
        }
    }

    pub fn is_complete(&self) -> (r: bool)
        ensures
            r == complete(self@),
    {
        self.name.unicode_len() != 0 && self.display_name.unicode_len() != 0
            && self.command.unicode_len() != 0
    }

    /// Moves to the next step where that is allowed; says whether it moved.
    pub fn advance(&mut self) -> (r: bool)
        requires
            old(self).wf(),
        ensures
            final(self).wf(),
            final(self)@ == advanced(old(self)@),
            r == (final(self).step != old(self).step),
    {
        if self.step < 6 || (self.step == 6 && self.is_complete()) {
            self.step = self.step + 1;
            true
        } else {
            false
        }
    }
}

} // verus!
