//! What the program does when it is started, and what its main menu does.
use crate::container;
use crate::text;
use vstd::prelude::*;
use vstd::string::*;

verus! {

/// What is known while the program decides what to do.
pub enum StartState {
    /// The program has been started.
    Launch,
    /// The program is recording its run.
    SingleRun,
    /// The file that was named is being read.
    NamedFile,
    /// It is decided what the program does.
    Decided,
}

/// What has happened outside.
pub enum StartEvent {
    /// The program's own file, and its arguments with its name first.
    Launch { image: Vec<u8>, args: Vec<String> },
    /// Whether the run could be recorded as the only one.
    Recorded(bool),
    /// The contents of the file that was named, where it could be read.
    Contents(Option<Vec<u8>>),
}

/// What is to be done outside.
pub enum StartAction {
    /// Record that the program is run, unless it has been run before.
    RecordRun,
    /// Read the file at this path.
    ReadNamedFile(String),
    /// Decrypt the payload of the program, and remove the program afterwards where that
    /// is said.
    Decrypt { remove_program: bool },
    /// Encrypt a file.
    Encrypt,
    /// End: the program has been run before. It is removed.
    RefuseSecondRun,
    /// End: the file that was named is no encrypted file.
    RefuseNamedFile,
    /// Nothing: the event does not belong to the state.
    Ignore,
}

/// The arguments ask for decryption.
pub open spec fn asks_to_decrypt(args: Seq<String>) -> bool {
    args.len() > 1 && args[1]@ == "--decrypt"@
}

/// How the program decides what to do: from state `s`, on event `e`, to state `next`
/// with action `a`.
pub open spec fn start_transition(
    s: StartState,
    e: StartEvent,
    next: StartState,
    a: StartAction,
) -> bool {
    match (s, e) {
        (StartState::Launch, StartEvent::Launch { image, args }) => if container::has_marker(
            image@,
        ) {
            next is SingleRun && a is RecordRun
        } else if asks_to_decrypt(args@) {
            next is Decided && a == (StartAction::Decrypt { remove_program: false })
        } else if args@.len() > 1 {
            next is NamedFile && match a {
                StartAction::ReadNamedFile(path) => path@ == args@[1]@,
                _ => false,
            }
        } else {
            next is Decided && a is Encrypt
        },
        (StartState::SingleRun, StartEvent::Recorded(recorded)) => next is Decided && (
        if recorded {
            a == (StartAction::Decrypt { remove_program: true })
        } else {
            a is RefuseSecondRun
        }),
        (StartState::NamedFile, StartEvent::Contents(contents)) => next is Decided && (
        if contents is Some && container::has_marker(contents->0@) {
            a == (StartAction::Decrypt { remove_program: false })
        } else {
            a is RefuseNamedFile
        }),
        _ => next == s && a is Ignore,
    }
}

/// Decides what the program does when it is started.
pub fn start_step(state: StartState, event: StartEvent) -> (step: (StartState, StartAction))
    ensures
        start_transition(state, event, step.0, step.1),
        state is Launch && event is Launch && !container::has_marker(event->image@) ==> {
            &&& event->args@.len() <= 1 <==> step.1 is Encrypt
            &&& event->args@.len() > 1 && event->args@[1]@ != "--decrypt"@ ==> step.1
                is ReadNamedFile && step.1->ReadNamedFile_0@ == event->args@[1]@
        },
{
    match (state, event) {
        (StartState::Launch, StartEvent::Launch { image, args }) => {
            if container::is_encrypted_image(image.as_slice()) {
                (StartState::SingleRun, StartAction::RecordRun)
            } else if args.len() > 1 {
                if text::same_text(args[1].as_str(), "--decrypt") {
                    (StartState::Decided, StartAction::Decrypt { remove_program: false })
                } else {
                    (StartState::NamedFile, StartAction::ReadNamedFile(args[1].clone()))
                }
            } else {
                (StartState::Decided, StartAction::Encrypt)
            }
        },
        (StartState::SingleRun, StartEvent::Recorded(recorded)) => {
            if recorded {
                (StartState::Decided, StartAction::Decrypt { remove_program: true })
            } else {
                (StartState::Decided, StartAction::RefuseSecondRun)
            }
        },
        (StartState::NamedFile, StartEvent::Contents(contents)) => {
            let encrypted = match &contents {
                Some(data) => container::is_encrypted_file(Some(data.as_slice())),
                None => container::is_encrypted_file(None),
            };
            if encrypted {
                (StartState::Decided, StartAction::Decrypt { remove_program: false })
            } else {
                (StartState::Decided, StartAction::RefuseNamedFile)
            }
        },
        (state, _) => (state, StartAction::Ignore),
    }
}

/// Whether a run may be recorded: there is a place for the record, and there is none
/// yet.
pub open spec fn run_is_free(has_place: bool, has_record: bool) -> bool {
    has_place && !has_record
}

/// Whether the program may go on to record its run.
pub fn check_single_run(has_place: bool, has_record: bool) -> (free: bool)
    ensures
        free == run_is_free(has_place, has_record),
{
    has_place && !has_record
}

/// Whether a run counts as recorded: it was free to be recorded, and the record was
/// written.
pub open spec fn run_counts(free: bool, written: bool) -> bool {
    free && written
}

/// Whether a run counts as recorded, given whether it was free to be recorded and whether
/// the record was written.
pub fn run_recorded(free: bool, written: bool) -> (recorded: bool)
    ensures
        recorded == run_counts(free, written),
{
    free && written
}

/// A program that carries a payload decrypts it only after its run has been recorded,
/// and only such a program removes itself after decryption.
pub proof fn law_encrypted_program_runs_once(
    s: StartState,
    e: StartEvent,
    next: StartState,
    a: StartAction,
)
    requires
        start_transition(s, e, next, a),
    ensures
        a == (StartAction::Decrypt { remove_program: true }) ==> s is SingleRun && e
            == StartEvent::Recorded(true),
        s is Launch && e is Launch && container::has_marker(e->image@) ==> a is RecordRun,
        s is SingleRun && e == StartEvent::Recorded(false) ==> a is RefuseSecondRun,
{
}

/// A program that carries a payload is decrypted exactly where there is a place for the
/// record of its run, there was no record before, and the record was written; in every
/// other case the run is refused.
pub proof fn law_run_is_refused_unless_recorded(
    has_place: bool,
    has_record: bool,
    written: bool,
    next: StartState,
    a: StartAction,
)
    requires
        start_transition(
            StartState::SingleRun,
            StartEvent::Recorded(run_counts(run_is_free(has_place, has_record), written)),
            next,
            a,
        ),
    ensures
        has_place && !has_record && written ==> a == (StartAction::Decrypt {
            remove_program: true,
        }),
        !has_place || has_record || !written ==> a is RefuseSecondRun,
{
}

/// What is shown at the end of decryption: whether it is a success, and the line.
pub struct Report {
    pub success: bool,
    pub line: String,
}

/// What is shown at the end of decryption. A success without a text is not shown.
pub fn decrypt_report(result: &Result<String, String>) -> (report: Option<Report>)
    ensures
        match *result {
            Ok(text) => if text@.len() == 0 {
                report is None
            } else {
                report is Some && report->0.success && report->0.line@ == "  "@ + text@
            },
            Err(text) => report is Some && !report->0.success && report->0.line@ == "  "@ + text@,
        },
{
    match result {
        Ok(text) => {
            if text.as_str().is_empty() {
                None
            } else {
                Some(Report { success: true, line: "  ".to_owned().concat(text.as_str()) })
            }
        },
        Err(text) => Some(Report { success: false, line: "  ".to_owned().concat(text.as_str()) }),
    }
}

/// What is chosen in the main menu.
pub enum MenuChoice {
    /// Encrypt a file.
    Encrypt,
    /// Tell about the program.
    About,
    /// Leave the menu.
    Quit,
    /// Nothing that the menu offers.
    Invalid,
}

/// What an input chooses in the main menu.
pub open spec fn chosen(choice: Seq<char>) -> MenuChoice {
    if choice == "1"@ {
        MenuChoice::Encrypt
    } else if choice == "2"@ {
        MenuChoice::About
    } else if choice == "3"@ || choice == "q"@ || choice == "Q"@ {
        MenuChoice::Quit
    } else {
        MenuChoice::Invalid
    }
}

/// What an input chooses in the main menu.
pub fn menu_choice(choice: &str) -> (action: MenuChoice)
    ensures
        action == chosen(choice@),
{
    if text::same_text(choice, "1") {
        MenuChoice::Encrypt
    } else if text::same_text(choice, "2") {
        MenuChoice::About
    } else if text::same_text(choice, "3") || text::same_text(choice, "q") || text::same_text(
        choice,
        "Q",
    ) {
        MenuChoice::Quit
    } else {
        MenuChoice::Invalid
    }
}

/// Whether the menu waits for the user before it is shown again: after every choice but
/// that of leaving it.
pub fn pauses_after(choice: &str) -> (pauses: bool)
    ensures
        pauses == !(chosen(choice@) is Quit),
{
    proof {
        reveal_strlit("1");
        reveal_strlit("2");
        reveal_strlit("3");
        reveal_strlit("q");
        reveal_strlit("Q");
        assert("1"@[0] == '1' && "2"@[0] == '2');
        assert("3"@[0] == '3' && "q"@[0] == 'q' && "Q"@[0] == 'Q');
    }
    !text::same_text(choice, "3") && !text::same_text(choice, "q") && !text::same_text(choice, "Q")
}

/// The label of the option at `index` in a menu: its number, from one on, in brackets.
pub fn option_label(index: usize) -> (label: String)
    requires
        index < usize::MAX,
    ensures
        label@ == "["@ + text::decimal((index + 1) as nat) + "]"@,
{
    let number = text::decimal_text((index + 1) as u64);
    "[".to_owned().concat(number.as_str()).concat("]")
}

} // verus!
