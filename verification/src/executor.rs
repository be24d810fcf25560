//! What firing a timer asks of the operating system: the commands to run
//! for each action, in the order in which they are tried, and the
//! bookkeeping of one run through them.

use crate::text::{chars_of, opt_text};
use crate::timer::TimerAction;
use vstd::prelude::*;

verus! {

/// The interpreter that runs scripts.
pub const SCRIPT_PROGRAM: &'static str = "/usr/bin/osascript";

/// The flag that hands the interpreter a script on its command line.
pub const SCRIPT_FLAG: &'static str = "-e";

/// The power management tool.
pub const POWER_PROGRAM: &'static str = "/usr/bin/pmset";

/// The request that puts the display to sleep at once.
pub const POWER_SLEEP: &'static str = "displaysleepnow";

/// What stands before the text in a dialog script.
pub const DIALOG_OPENING: &'static str = "display dialog \"";

/// What stands after the text in a dialog script.
pub const DIALOG_CLOSING: &'static str =
    "\" with title \"LockPilot\" buttons {\"OK\"} default button \"OK\"";

/// The script that presses the shortcut for locking the screen.
pub const LOCK_SHORTCUT: &'static str =
    "tell application \"System Events\" to keystroke \"q\" using {control down, command down}";

/// The script that starts the screen saver.
pub const LOCK_SCREEN_SAVER: &'static str =
    "tell application \"System Events\" to start current screen saver";

/// The script that powers the machine off.
pub const SHUT_DOWN: &'static str = "tell application \"System Events\" to shut down";

/// The script that restarts the machine.
pub const RESTART: &'static str = "tell application \"System Events\" to restart";

/// What is reported when the interpreter could not be started.
pub const NOT_STARTED: &'static str = "Failed to run osascript: ";

/// Whether `c` has a meaning of its own inside a string of a script: the
/// double quote ends the string, the backslash takes the character that
/// follows it.
pub open spec fn is_special(c: char) -> bool {
    c == '"' || c == '\\'
}

/// How one character is written inside a string of a script: a special
/// character with a backslash before it, any other as it is.
pub open spec fn escaped_char(c: char) -> Seq<char> {
    if is_special(c) {
        seq!['\\', c]
    } else {
        seq![c]
    }
}

/// `text` as it is written inside a string of a script: with a backslash
/// put before each double quote and each backslash.
pub open spec fn escaped(text: Seq<char>) -> Seq<char>
    decreases text.len(),
{
    if text.len() == 0 {
        Seq::empty()
    } else {
        escaped(text.drop_last()) + escaped_char(text.last())
    }
}

/// Whether `written`, standing between two double quotes, stays inside
/// them: every backslash is followed by a special character, which it
/// takes, and no double quote stands without a backslash of its own.
pub open spec fn stays_inside(written: Seq<char>) -> bool
    decreases written.len(),
{
    if written.len() == 0 {
        true
    } else if written[0] == '\\' {
        written.len() >= 2 && is_special(written[1]) && stays_inside(
            written.subrange(2, written.len() as int),
        )
    } else {
        written[0] != '"' && stays_inside(written.drop_first())
    }
}

/// The text that `written` denotes inside a string of a script: a
/// backslash stands for the character after it, any other character for
/// itself.
pub open spec fn denoted(written: Seq<char>) -> Seq<char>
    decreases written.len(),
{
    if written.len() == 0 {
        Seq::empty()
    } else if written[0] == '\\' && written.len() >= 2 {
        seq![written[1]] + denoted(written.subrange(2, written.len() as int))
    } else {
        seq![written[0]] + denoted(written.drop_first())
    }
}

/// Escaping goes character by character, from the front as from the back.
pub proof fn lemma_escaped_from_front(text: Seq<char>)
    requires
        text.len() > 0,
    ensures
        escaped(text) == escaped_char(text[0]) + escaped(text.drop_first()),
    decreases text.len(),
{
    if text.len() == 1 {
        assert(text.drop_last() =~= Seq::<char>::empty());
        assert(text.drop_first() =~= Seq::<char>::empty());
        assert(escaped(text) =~= escaped_char(text[0]) + escaped(text.drop_first()));
    } else {
        lemma_escaped_from_front(text.drop_last());
        assert(text.drop_last().drop_first() =~= text.drop_first().drop_last());
        assert(text.drop_last()[0] == text[0]);
        assert(text.drop_first().last() == text.last());
        assert(escaped(text) =~= escaped_char(text[0]) + escaped(text.drop_first()));
    }
}

/// A message that is escaped stays inside its string and is read back as
/// it was: no double quote of the message ends the string, no backslash
/// of the message takes a character that is not its own, and what the
/// string denotes is the message, character for character.
pub proof fn law_escaped_reads_back(message: Seq<char>)
    ensures
        stays_inside(escaped(message)),
        denoted(escaped(message)) == message,
    decreases message.len(),
{
    if message.len() > 0 {
        let rest = message.drop_first();
        let written = escaped(message);
        lemma_escaped_from_front(message);
        law_escaped_reads_back(rest);
        if is_special(message[0]) {
            assert(written[0] == '\\' && written[1] == message[0]);
            assert(written.subrange(2, written.len() as int) =~= escaped(rest));
        } else {
            assert(written[0] == message[0]);
            assert(written.drop_first() =~= escaped(rest));
        }
        assert(denoted(written) =~= seq![message[0]] + rest);
        assert(seq![message[0]] + rest =~= message);
    }
}

/// The script that shows `message` in a dialog.
pub open spec fn dialog_script_text(message: Seq<char>) -> Seq<char> {
    DIALOG_OPENING@ + escaped(message) + DIALOG_CLOSING@
}

/// The script that shows `message` in a dialog with a single button. Double
/// quotes and backslashes in the message are escaped, so that the message
/// stays inside the script's string and is shown as it is.
pub fn dialog_script(message: &str) -> (script: String)
    ensures
        script@ == dialog_script_text(message@),
{
    let chars = chars_of(message);
    let mut script = DIALOG_OPENING.to_owned();
    let mut i: usize = 0;
    while i < chars.len()
        invariant
            i <= chars.len(),
            script@ == DIALOG_OPENING@ + escaped(chars@.take(i as int)),
        decreases chars.len() - i,
    {
        let ghost before = script@;
        if chars[i] == '"' || chars[i] == '\\' {
            script.push('\\');
        }
        script.push(chars[i]);
        proof {
            assert(chars@.take(i + 1).drop_last() =~= chars@.take(i as int));
            assert(chars@.take(i + 1).last() == chars@[i as int]);
            assert(script@ =~= before + escaped_char(chars@[i as int]));
            assert(script@ =~= DIALOG_OPENING@ + escaped(chars@.take(i + 1)));
        }
        i += 1;
    }
    proof {
        assert(chars@.take(i as int) =~= chars@);
    }
    script.append(DIALOG_CLOSING);
    script
}

/// A command for the operating system, as the contracts see it.
pub enum CommandView {
    Script(Seq<char>),
    DisplaySleep,
}

impl CommandView {
    /// The program to start.
    pub open spec fn program(self) -> Seq<char> {
        match self {
            CommandView::Script(_) => SCRIPT_PROGRAM@,
            CommandView::DisplaySleep => POWER_PROGRAM@,
        }
    }

    /// The arguments to start it with.
    pub open spec fn arguments(self) -> Seq<Seq<char>> {
        match self {
            CommandView::Script(script) => seq![SCRIPT_FLAG@, script],
            CommandView::DisplaySleep => seq![POWER_SLEEP@],
        }
    }

    /// Whether the command counts as done only once the program has ended
    /// with success.
    pub open spec fn awaits_exit(self) -> bool {
        self is Script
    }
}

/// A command for the operating system.
#[derive(Debug, PartialEq, Eq)]
pub enum SystemCommand {
    /// Run the script through the script interpreter and wait for it.
    Script(String),
    /// Put the display to sleep, without waiting.
    DisplaySleep,
}

impl View for SystemCommand {
    type V = CommandView;

    open spec fn view(&self) -> CommandView {
        match self {
            SystemCommand::Script(script) => CommandView::Script(script@),
            SystemCommand::DisplaySleep => CommandView::DisplaySleep,
        }
    }
}

/// The texts as the contracts see them.
pub open spec fn texts(strings: Seq<String>) -> Seq<Seq<char>> {
    Seq::new(strings.len(), |i: int| strings[i]@)
}

impl SystemCommand {
    /// The program to start.
    pub fn program(&self) -> (r: &'static str)
        ensures
            r@ == self@.program(),
    {
        match self {
            SystemCommand::Script(_) => SCRIPT_PROGRAM,
            SystemCommand::DisplaySleep => POWER_PROGRAM,
        }
    }

    /// The arguments to start it with.
    pub fn arguments(&self) -> (r: Vec<String>)
        ensures
            texts(r@) == self@.arguments(),
    {
        let mut r: Vec<String> = Vec::new();
        match self {
            SystemCommand::Script(script) => {
                r.push(SCRIPT_FLAG.to_owned());
                r.push(script.clone());
            },
            SystemCommand::DisplaySleep => {
                r.push(POWER_SLEEP.to_owned());
            },
        }
        assert(texts(r@) =~= self@.arguments());
        r
    }

    /// Whether the command counts as done only once the program has ended
    /// with success. A command that is not waited for counts as done when
    /// it was started.
    pub fn awaits_exit(&self) -> (r: bool)
        ensures
            r == self@.awaits_exit(),
    {
        match self {
            SystemCommand::Script(_) => true,
            SystemCommand::DisplaySleep => false,
        }
    }
}

/// The commands that carry out an action, in the order in which they are
/// tried; each is a fallback for the one before it. A popup without text
/// has nothing to show and asks for nothing.
pub open spec fn fallback_chain(action: TimerAction, message: Option<Seq<char>>) -> Seq<
    CommandView,
> {
    match action {
        TimerAction::Popup => match message {
            Some(text) => seq![CommandView::Script(dialog_script_text(text))],
            None => Seq::empty(),
        },
        TimerAction::Lock => seq![
            CommandView::Script(LOCK_SHORTCUT@),
            CommandView::Script(LOCK_SCREEN_SAVER@),
            CommandView::DisplaySleep,
        ],
        TimerAction::Shutdown => seq![CommandView::Script(SHUT_DOWN@)],
        TimerAction::Reboot => seq![CommandView::Script(RESTART@)],
    }
}

/// The commands as the contracts see them.
pub open spec fn command_views(commands: Seq<SystemCommand>) -> Seq<CommandView> {
    Seq::new(commands.len(), |i: int| commands[i]@)
}

/// The commands that carry out `action`, in the order in which they are
/// tried.
pub fn action_commands(action: TimerAction, message: &Option<String>) -> (r: Vec<SystemCommand>)
    ensures
        command_views(r@) == fallback_chain(action, opt_text(*message)),
{
    let mut r: Vec<SystemCommand> = Vec::new();
    match action {
        TimerAction::Popup => {
            match message {
                Some(text) => {
                    r.push(SystemCommand::Script(dialog_script(text.as_str())));
                },
                None => {},
            }
        },
        TimerAction::Lock => {
            r.push(SystemCommand::Script(LOCK_SHORTCUT.to_owned()));
            r.push(SystemCommand::Script(LOCK_SCREEN_SAVER.to_owned()));
            r.push(SystemCommand::DisplaySleep);
        },
        TimerAction::Shutdown => {
            r.push(SystemCommand::Script(SHUT_DOWN.to_owned()));
        },
        TimerAction::Reboot => {
            r.push(SystemCommand::Script(RESTART.to_owned()));
        },
    }
    assert(command_views(r@) =~= fallback_chain(action, opt_text(*message)));
    r
}

/// The commands that are left to try once the first of `remaining` has been
/// tried: none after a success, the rest of the chain after a failure.
pub open spec fn after_attempt(remaining: Seq<CommandView>, succeeded: bool) -> Seq<CommandView> {
    if succeeded || remaining.len() == 0 {
        Seq::empty()
    } else {
        remaining.drop_first()
    }
}

/// One run through the commands of an action. The first command that
/// succeeds ends the run; a command is tried only after all those before it
/// have failed.
pub struct Execution {
    commands: Vec<SystemCommand>,
    next: usize,
}

impl Execution {
    #[verifier::type_invariant]
    spec fn within_chain(self) -> bool {
        self.next <= self.commands.len()
    }

    /// The commands that are left to try, the next one first.
    pub closed spec fn remaining(self) -> Seq<CommandView> {
        command_views(self.commands@).subrange(self.next as int, self.commands.len() as int)
    }

    /// Starts a run for `action`.
    pub fn begin(action: TimerAction, message: &Option<String>) -> (r: Execution)
        ensures
            r.remaining() == fallback_chain(action, opt_text(*message)),
    {
        let commands = action_commands(action, message);
        let r = Execution { commands, next: 0 };
        assert(r.remaining() =~= command_views(r.commands@));
        r
    }

    /// The command to try now, or `None` when the run is over.
    pub fn current(&self) -> (r: Option<&SystemCommand>)
        ensures
            match r {
                Some(command) => self.remaining().len() > 0 && command@ == self.remaining()[0],
                None => self.remaining().len() == 0,
            },
    {
        proof {
            use_type_invariant(self);
        }
        if self.next < self.commands.len() {
            Some(&self.commands[self.next])
        } else {
            None
        }
    }

    /// Takes note of how the current command went.
    pub fn record(&mut self, succeeded: bool)
        ensures
            final(self).remaining() == after_attempt(old(self).remaining(), succeeded),
    {
        proof {
            use_type_invariant(&*self);
        }
        if succeeded {
            self.next = self.commands.len();
        } else if self.next < self.commands.len() {
            self.next = self.next + 1;
        }
        assert(self.remaining() =~= after_attempt(old(self).remaining(), succeeded));
    }
}

/// How an attempt to run a script ended.
#[derive(Debug, PartialEq, Eq)]
pub enum ScriptRun {
    /// The interpreter could not be started, for the reason given.
    NotStarted(String),
    /// The interpreter ran and ended, with what it wrote to its error
    /// stream.
    Ended { success: bool, errors: String },
}

/// What `String::from_utf8_lossy` makes of `bytes`: the text that they
/// encode, with the replacement character in place of what is no UTF-8.
pub uninterp spec fn lossy_text(bytes: Seq<u8>) -> Seq<char>;

/// Calls `String::from_utf8_lossy`, which decodes the bytes as UTF-8 and
/// puts the replacement character where they are none. The text depends on
/// the bytes alone.
#[verifier::external_body]
fn decode_lossy(bytes: &Vec<u8>) -> (text: String)
    ensures
        text@ == lossy_text(bytes@),
{
    String::from_utf8_lossy(bytes).into_owned()
}

impl ScriptRun {
    /// The run of an interpreter that ended, with the bytes that it wrote
    /// to its error stream read as text.
    pub fn ended(success: bool, errors: &Vec<u8>) -> (run: ScriptRun)
        ensures
            run matches ScriptRun::Ended { success: ended_well, errors: said } && ended_well
                == success && said@ == lossy_text(errors@),
    {
        ScriptRun::Ended { success, errors: decode_lossy(errors) }
    }
}

/// Whether a script did its work: it did if the interpreter ended with
/// success. Otherwise the reason is what the interpreter wrote to its error
/// stream, or a note that it could not be started.
pub fn script_result(run: ScriptRun) -> (r: Result<(), String>)
    ensures
        match run {
            ScriptRun::NotStarted(reason) => r matches Err(why) && why@ == NOT_STARTED@ + reason@,
            ScriptRun::Ended { success, errors } => if success {
                r is Ok
            } else {
                r matches Err(why) && why@ == errors@
            },
        },
{
    match run {
        ScriptRun::NotStarted(reason) => {
            let mut why = NOT_STARTED.to_owned();
            why.append(reason.as_str());
            Err(why)
        },
        ScriptRun::Ended { success, errors } => {
            if success {
                Ok(())
            } else {
                Err(errors)
            }
        },
    }
}

} // verus!
