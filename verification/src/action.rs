//! A command line of templates, compiled once and rendered for each record.

use crate::command::{command_line, Command, Invocation};
use crate::templates::{
    has_partial, includes_partial, partial_free, render_error_text, rendered, strict_of,
    template_error_text, template_ok, templates_new, templates_of, templates_register,
    templates_render, templates_strict,
};
use crate::text::{decimal, decimal_digits, option_text, text_of, texts};
use crate::value::{tree_of, Tree};
use vstd::prelude::*;
use vstd::string::StringExecFns;

verus! {

/// A place of a command line that holds a template.
#[derive(Clone, Copy, Debug, PartialEq, Eq, Structural)]
pub enum Slot {
    /// The argument with this index, counted from 0 after the program.
    Arg(usize),
    /// The text for the standard input.
    Stdin,
}

impl Slot {
    /// The words that name this slot.
    pub open spec fn spec_describe(&self) -> Seq<char> {
        match self {
            Slot::Arg(i) => "argument "@ + decimal_digits(*i as nat),
            Slot::Stdin => "stdin"@,
        }
    }

    /// Names this slot for the operator.
    pub fn describe(&self) -> (text: String)
        ensures
            text@ == self.spec_describe(),
    {
        match self {
            Slot::Arg(i) => {
                let mut text = String::from_str("argument ");
                text.append(decimal(*i).as_str());
                text
            },
            Slot::Stdin => String::from_str("stdin"),
        }
    }
}

/// The words for a template that includes a partial.
pub const NO_PARTIALS: &'static str = "a template cannot include a partial";

/// A template that cannot be used: it does not compile, or it includes a partial.
#[derive(Debug)]
pub struct TemplateFailure {
    pub slot: Slot,
    pub message: String,
}

/// A template that does not render over a record.
#[derive(Debug)]
pub struct RenderFailure {
    pub slot: Slot,
    pub message: String,
}

/// What an action is made of.
pub struct ActionModel {
    pub command: Seq<char>,
    /// The template of each argument.
    pub args: Seq<Seq<char>>,
    /// The template of the standard input.
    pub stdin: Option<Seq<char>>,
    pub prompt: bool,
    pub prompt_stdin: bool,
}

/// The name under which the template of an argument is kept: its index in decimal.
pub open spec fn arg_name(i: nat) -> Seq<char> {
    decimal_digits(i)
}

/// Whether a text can be a template of an action: it includes no partial,
/// and it compiles.
pub open spec fn usable(source: Seq<char>) -> bool {
    !has_partial(source) && template_ok(source)
}

/// The index of the first text from `from` on that is not usable.
pub open spec fn first_bad_arg(args: Seq<Seq<char>>, from: nat) -> Option<nat>
    decreases args.len() - from,
{
    if from >= args.len() {
        None
    } else if !usable(args[from as int]) {
        Some(from)
    } else {
        first_bad_arg(args, from + 1)
    }
}

/// The slot whose template fails the construction: the standard input where
/// its text is not usable, else the first argument that is not.
pub open spec fn bad_slot(stdin: Option<Seq<char>>, args: Seq<Seq<char>>) -> Option<Slot> {
    if stdin is Some && !usable(stdin.unwrap()) {
        Some(Slot::Stdin)
    } else {
        match first_bad_arg(args, 0) {
            Some(i) => Some(Slot::Arg(i as usize)),
            None => None,
        }
    }
}

impl ActionModel {
    /// The templates of the first `n` arguments under their names.
    pub open spec fn arg_templates(self, n: nat) -> Map<Seq<char>, Seq<char>>
        decreases n,
    {
        if n == 0 {
            Map::empty()
        } else {
            self.arg_templates((n - 1) as nat).insert(arg_name((n - 1) as nat), self.args[n - 1])
        }
    }

    /// All templates of the action under their names.
    pub open spec fn templates(self) -> Map<Seq<char>, Seq<char>> {
        match self.stdin {
            Some(source) => self.arg_templates(self.args.len()).insert("stdin"@, source),
            None => self.arg_templates(self.args.len()),
        }
    }

    /// What the template `name` renders to over a record.
    pub open spec fn render(self, name: Seq<char>, data: Tree) -> Option<Seq<char>> {
        rendered(self.templates(), true, name, data)
    }

    /// What the argument with index `i` renders to over a record.
    pub open spec fn render_arg(self, i: int, data: Tree) -> Option<Seq<char>> {
        self.render(arg_name(i as nat), data)
    }

    /// The index of the first argument from `from` on that does not render.
    pub open spec fn first_unrendered(self, data: Tree, from: nat) -> Option<nat>
        decreases self.args.len() - from,
    {
        if from >= self.args.len() {
            None
        } else if self.render_arg(from as int, data) is None {
            Some(from)
        } else {
            self.first_unrendered(data, from + 1)
        }
    }

    /// The invocation for a record, or the slot whose template does not
    /// render: the first such argument, else the standard input.
    pub open spec fn prepared(self, data: Tree) -> Result<Invocation, Slot> {
        match self.first_unrendered(data, 0) {
            Some(i) => Err(Slot::Arg(i as usize)),
            None => {
                let args = Seq::new(
                    self.args.len(),
                    |i: int| self.render_arg(i, data).unwrap(),
                );
                match self.stdin {
                    None => Ok(Invocation { program: self.command, args, stdin: None }),
                    Some(_) => match self.render("stdin"@, data) {
                        None => Err(Slot::Stdin),
                        Some(text) => Ok(
                            Invocation { program: self.command, args, stdin: Some(text) },
                        ),
                    },
                }
            },
        }
    }

    /// The text that asks the operator about an invocation: its command
    /// line, after the rendered standard input where that is to be shown.
    /// `None` where the standard input does not render.
    pub open spec fn prompt_text(self, invocation: Invocation, data: Tree) -> Option<Seq<char>> {
        let line = command_line(invocation.program, invocation.args);
        if self.prompt_stdin {
            match self.render("stdin"@, data) {
                Some(text) => Some(question_words(Some(text), line)),
                None => None,
            }
        } else {
            Some(question_words(None, line))
        }
    }
}

/// The words of a question: the command line, after the standard input
/// where that is shown.
pub open spec fn question_words(stdin: Option<Seq<char>>, line: Seq<char>) -> Seq<char> {
    match stdin {
        Some(text) => "# Stdin:\n"@ + text + "\n- Command:\n"@ + line + "\n"@,
        None => line,
    }
}

/// Words the question about a command line, with the standard input of the
/// process where that is to be shown.
pub fn question(stdin: Option<&str>, line: &str) -> (text: String)
    ensures
        text@ == question_words(option_text(stdin), line@),
{
    match stdin {
        Some(shown) => {
            let mut text = String::from_str("# Stdin:\n");
            text.append(shown);
            text.append("\n- Command:\n");
            text.append(line);
            text.append("\n");
            text
        },
        None => String::from_str(line),
    }
}

/// A command line whose templates are compiled.
pub struct Action {
    command: String,
    args: Vec<String>,
    stdin: Option<String>,
    prompt: bool,
    prompt_stdin: bool,
    templates: handlebars::Handlebars<'static>,
}

impl View for Action {
    type V = ActionModel;

    closed spec fn view(&self) -> ActionModel {
        ActionModel {
            command: self.command@,
            args: texts(self.args@),
            stdin: text_of(self.stdin),
            prompt: self.prompt,
            prompt_stdin: self.prompt_stdin,
        }
    }
}

impl Action {
    #[verifier::type_invariant]
    spec fn inv(&self) -> bool {
        &&& strict_of(self.templates)
        &&& templates_of(self.templates) == self@.templates()
        &&& partial_free(templates_of(self.templates))
    }

    /// Compiles the templates of a command line: the text for the standard
    /// input, if there is one, and each argument after the program.
    ///
    /// A text that does not compile, and one that includes a partial, fails
    /// the construction, and the failure names its slot. A record whose
    /// fields a template names but that the record lacks will fail to render.
    pub fn new(
        command: String,
        stdin: Option<String>,
        args: Vec<String>,
        prompt: bool,
        prompt_stdin: bool,
    ) -> (r: Result<Action, TemplateFailure>)
        ensures
            match bad_slot(text_of(stdin), texts(args@)) {
                Some(slot) => r matches Err(failure) && failure.slot == slot,
                None => r matches Ok(action) && action@ == (ActionModel {
                    command: command@,
                    args: texts(args@),
                    stdin: text_of(stdin),
                    prompt,
                    prompt_stdin,
                }),
            },
    {
        let ghost model = ActionModel {
            command: command@,
            args: texts(args@),
            stdin: text_of(stdin),
            prompt,
            prompt_stdin,
        };
        let mut templates = templates_new();
        templates_strict(&mut templates, true);
        let mut failed: Option<TemplateFailure> = None;
        let mut i: usize = 0;
        while i < args.len() && failed.is_none()
            invariant
                i <= args@.len(),
                model.args == texts(args@),
                strict_of(templates),
                partial_free(templates_of(templates)),
                match failed {
                    None => first_bad_arg(model.args, 0) == first_bad_arg(model.args, i as nat)
                        && templates_of(templates) == model.arg_templates(i as nat),
                    Some(failure) => first_bad_arg(model.args, 0) matches Some(bad)
                        && failure.slot == Slot::Arg(bad as usize),
                },
            decreases args@.len() - i + if failed is None { 1nat } else { 0nat },
        {
            let name = decimal(i);
            if includes_partial(args[i].as_str()) {
                failed = Some(
                    TemplateFailure { slot: Slot::Arg(i), message: String::from_str(NO_PARTIALS) },
                );
            } else {
                match templates_register(&mut templates, name.as_str(), args[i].as_str()) {
                    Ok(()) => {
                        i = i + 1;
                    },
                    Err(e) => {
                        failed = Some(
                            TemplateFailure {
                                slot: Slot::Arg(i),
                                message: template_error_text(&e),
                            },
                        );
                    },
                }
            }
        }
        if let Some(source) = &stdin {
            if includes_partial(source.as_str()) {
                return Err(
                    TemplateFailure { slot: Slot::Stdin, message: String::from_str(NO_PARTIALS) },
                );
            }
            if let Err(e) = templates_register(&mut templates, "stdin", source.as_str()) {
                return Err(TemplateFailure { slot: Slot::Stdin, message: template_error_text(&e) });
            }
        }
        if let Some(failure) = failed {
            return Err(failure);
        }
        Ok(Action { command, args, stdin, prompt, prompt_stdin, templates })
    }

    /// Whether the operator is asked before each run.
    pub fn is_interactive(&self) -> (b: bool)
        ensures
            b == self@.prompt,
    {
        self.prompt
    }

    /// Whether the question to the operator shows the standard input.
    pub fn shows_stdin(&self) -> (b: bool)
        ensures
            b == self@.prompt_stdin,
    {
        self.prompt_stdin
    }

    /// Renders the command line for one record.
    ///
    /// The arguments are rendered in their order, the standard input after
    /// them. The first template that does not render fails the record, and
    /// the failure names its slot.
    pub fn prepare(&self, value: &serde_json::Value) -> (r: Result<Command, RenderFailure>)
        ensures
            match self@.prepared(tree_of(*value)) {
                Ok(invocation) => r matches Ok(cmd) && cmd@ == invocation,
                Err(slot) => r matches Err(failure) && failure.slot == slot,
            },
    {
        proof {
            use_type_invariant(self);
        }
        let ghost model = self@;
        let ghost data = tree_of(*value);
        let mut args: Vec<String> = Vec::new();
        let mut i: usize = 0;
        while i < self.args.len()
            invariant
                i <= self.args@.len() == model.args.len(),
                model == self@,
                data == tree_of(*value),
                strict_of(self.templates),
                templates_of(self.templates) == model.templates(),
                partial_free(templates_of(self.templates)),
                model.first_unrendered(data, 0) == model.first_unrendered(data, i as nat),
                texts(args@) == Seq::new(i as nat, |j: int| model.render_arg(j, data).unwrap()),
            decreases self.args@.len() - i,
        {
            let name = decimal(i);
            let ghost before = texts(args@);
            match templates_render(&self.templates, name.as_str(), value) {
                Ok(text) => {
                    args.push(text);
                    proof {
                        assert(texts(args@) =~= before.push(text@));
                        assert(model.render_arg(i as int, data) == Some(text@));
                        assert(texts(args@) =~= Seq::new(
                            (i + 1) as nat,
                            |j: int| model.render_arg(j, data).unwrap(),
                        ));
                    }
                },
                Err(e) => {
                    return Err(
                        RenderFailure { slot: Slot::Arg(i), message: render_error_text(&e) },
                    );
                },
            }
            i = i + 1;
        }
        if self.stdin.is_some() {
            match templates_render(&self.templates, "stdin", value) {
                Ok(text) => Ok(Command { program: self.command.clone(), args, stdin: Some(text) }),
                Err(e) => Err(
                    RenderFailure { slot: Slot::Stdin, message: render_error_text(&e) },
                ),
            }
        } else {
            Ok(Command { program: self.command.clone(), args, stdin: None })
        }
    }

    /// Words the question that the operator is asked about an invocation.
    pub fn prompt(&self, cmd: &Command, value: &serde_json::Value) -> (r: Result<
        String,
        RenderFailure,
    >)
        ensures
            match self@.prompt_text(cmd@, tree_of(*value)) {
                Some(text) => r matches Ok(question) && question@ == text,
                None => r matches Err(failure) && failure.slot == Slot::Stdin,
            },
    {
        proof {
            use_type_invariant(self);
        }
        let line = cmd.line();
        if self.prompt_stdin {
            match templates_render(&self.templates, "stdin", value) {
                Ok(stdin) => Ok(question(Some(stdin.as_str()), line.as_str())),
                Err(e) => Err(RenderFailure { slot: Slot::Stdin, message: render_error_text(&e) }),
            }
        } else {
            Ok(question(None, line.as_str()))
        }
    }
}

} // verus!
