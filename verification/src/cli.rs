//! The command line: what `cb` can be asked, and which handler each
//! request goes to. Parsing the arguments is left to the program.
use vstd::prelude::*;

verus! {

/// The parsed command line.
#[derive(Debug, Clone)]
pub struct Cli {
    pub command: Option<Commands>,
    /// Debug logging.
    pub debug: bool,
}

/// The subcommands.
#[derive(Debug, Clone)]
pub enum Commands {
    /// Voice chat, or one text message (the words given).
    Chat { message: Vec<String> },
    /// Install the daemon.
    Install,
    /// Remove the daemon.
    Uninstall,
    /// Show the daemon's status.
    Status,
    /// Update to the newest release (`force`: also betas, and reinstall).
    Update { force: bool },
    /// Open the local dashboard.
    Open,
    /// Show the event log of today or of `date`, optionally following it.
    Logs { follow: bool, date: Option<String> },
    /// The configuration: wizard, show, or set one value.
    Config { action: Option<ConfigAction> },
}

/// What `cb config` does.
#[derive(Debug, Clone)]
pub enum ConfigAction {
    Show,
    SetValue { key: String, value: String },
}

/// The handler a command line goes to.
#[derive(Debug, Clone)]
pub enum Action {
    Voice,
    Text(String),
    Update { force: bool },
    Install,
    Uninstall,
    Status,
    Open,
    Logs { follow: bool, date: Option<String> },
    Wizard,
    ShowConfig,
    SetConfig { key: String, value: String },
}

/// Words joined with single spaces.
pub open spec fn spaced(words: Seq<Seq<char>>) -> Seq<char>
    decreases words.len(),
{
    if words.len() == 0 {
        Seq::empty()
    } else if words.len() == 1 {
        words[0]
    } else {
        spaced(words.drop_last()) + " "@ + words.last()
    }
}

/// No subcommand, or `chat` without words, is voice chat; `chat` with
/// words sends them as one message; the rest map one to one.
pub open spec fn action_spec(cli: Cli, a: Action) -> bool {
    match cli.command {
        None => a is Voice,
        Some(Commands::Chat { message }) => if message@.len() == 0 {
            a is Voice
        } else {
            a matches Action::Text(t) && t@ == spaced(message@.map_values(|w: String| w@))
        },
        Some(Commands::Update { force }) => a == (Action::Update { force }),
        Some(Commands::Install) => a is Install,
        Some(Commands::Uninstall) => a is Uninstall,
        Some(Commands::Status) => a is Status,
        Some(Commands::Open) => a is Open,
        Some(Commands::Logs { follow, date }) => a == (Action::Logs { follow, date }),
        Some(Commands::Config { action }) => match action {
            None => a is Wizard,
            Some(ConfigAction::Show) => a is ShowConfig,
            Some(ConfigAction::SetValue { key, value }) => a == (Action::SetConfig { key, value }),
        },
    }
}

fn join_words(words: &Vec<String>) -> (r: String)
    ensures
        r@ == spaced(words@.map_values(|w: String| w@)),
{
    let ghost ws = words@.map_values(|w: String| w@);
    let mut s = String::new();
    let mut i: usize = 0;
    while i < words.len()
        invariant
            i <= words@.len(),
            ws == words@.map_values(|w: String| w@),
            s@ == spaced(ws.subrange(0, i as int)),
        decreases words.len() - i,
    {
        let ghost next = ws.subrange(0, i + 1);
        assert(next.drop_last() =~= ws.subrange(0, i as int));
        assert(next.last() == words@[i as int]@);
        if i > 0 {
            s.append(" ");
        }
        s.append(words[i].as_str());
        proof {
            if i == 0 {
                assert(next.len() == 1);
            }
        }
        assert(s@ =~= spaced(next));
        i += 1;
    }
    assert(ws.subrange(0, ws.len() as int) =~= ws);
    s
}

/// Where the command line goes.
pub fn dispatch(cli: Cli) -> (r: Action)
    ensures
        action_spec(cli, r),
{
    match cli.command {
        None => Action::Voice,
        Some(Commands::Chat { message }) => if message.len() == 0 {
            Action::Voice
        } else {
            Action::Text(join_words(&message))
        },
        Some(Commands::Update { force }) => Action::Update { force },
        Some(Commands::Install) => Action::Install,
        Some(Commands::Uninstall) => Action::Uninstall,
        Some(Commands::Status) => Action::Status,
        Some(Commands::Open) => Action::Open,
        Some(Commands::Logs { follow, date }) => Action::Logs { follow, date },
        Some(Commands::Config { action }) => match action {
            None => Action::Wizard,
            Some(ConfigAction::Show) => Action::ShowConfig,
            Some(ConfigAction::SetValue { key, value }) => Action::SetConfig { key, value },
        },
    }
}

} // verus!
