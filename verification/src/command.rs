//! The command surface: routing an inbound command name, and the
//! follow-up choice of the accounts overview, to the workflow to run.

use vstd::prelude::*;
use vstd::string::StringExecFns;

verus! {

/// The six user-invocable operations.
#[derive(Clone, Copy, PartialEq, Eq, Structural, Debug)]
pub enum Command {
    ClaimCode,
    ClaimDaily,
    Accounts,
    Link,
    Unlink,
    SubmitCode,
}

/// Which command an inbound name selects; an unknown name selects none.
pub open spec fn command_of(name: Seq<char>) -> Option<Command> {
    if name == "claimcode"@ {
        Some(Command::ClaimCode)
    } else if name == "claimdaily"@ {
        Some(Command::ClaimDaily)
    } else if name == "accounts"@ {
        Some(Command::Accounts)
    } else if name == "link"@ {
        Some(Command::Link)
    } else if name == "unlink"@ {
        Some(Command::Unlink)
    } else if name == "submitcode"@ {
        Some(Command::SubmitCode)
    } else {
        None
    }
}

/// Routes one inbound command name.
pub fn dispatch(name: &String) -> (c: Option<Command>)
    ensures
        c == command_of(name@),
{
    if *name == String::from_str("claimcode") {
        Some(Command::ClaimCode)
    } else if *name == String::from_str("claimdaily") {
        Some(Command::ClaimDaily)
    } else if *name == String::from_str("accounts") {
        Some(Command::Accounts)
    } else if *name == String::from_str("link") {
        Some(Command::Link)
    } else if *name == String::from_str("unlink") {
        Some(Command::Unlink)
    } else if *name == String::from_str("submitcode") {
        Some(Command::SubmitCode)
    } else {
        None
    }
}

/// The name a command is registered under.
pub open spec fn name_of(c: Command) -> Seq<char> {
    match c {
        Command::ClaimCode => "claimcode"@,
        Command::ClaimDaily => "claimdaily"@,
        Command::Accounts => "accounts"@,
        Command::Link => "link"@,
        Command::Unlink => "unlink"@,
        Command::SubmitCode => "submitcode"@,
    }
}

/// The description a command is registered with.
pub open spec fn description_of(c: Command) -> Seq<char> {
    match c {
        Command::ClaimCode => "Claim code"@,
        Command::ClaimDaily => "Claim daily login reward"@,
        Command::Accounts => "List your linked accounts and (un)link accounts."@,
        Command::Link => "Link your HoYoLab account"@,
        Command::Unlink => "Unlink your HoYoLab account"@,
        Command::SubmitCode => "Submit a redemption code"@,
    }
}

/// The name to register a command under.
pub fn command_name(c: &Command) -> (r: String)
    ensures
        r@ == name_of(*c),
{
    match c {
        Command::ClaimCode => String::from_str("claimcode"),
        Command::ClaimDaily => String::from_str("claimdaily"),
        Command::Accounts => String::from_str("accounts"),
        Command::Link => String::from_str("link"),
        Command::Unlink => String::from_str("unlink"),
        Command::SubmitCode => String::from_str("submitcode"),
    }
}

/// The description to register a command with.
pub fn command_description(c: &Command) -> (r: String)
    ensures
        r@ == description_of(*c),
{
    match c {
        Command::ClaimCode => String::from_str("Claim code"),
        Command::ClaimDaily => String::from_str("Claim daily login reward"),
        Command::Accounts => String::from_str("List your linked accounts and (un)link accounts."),
        Command::Link => String::from_str("Link your HoYoLab account"),
        Command::Unlink => String::from_str("Unlink your HoYoLab account"),
        Command::SubmitCode => String::from_str("Submit a redemption code"),
    }
}

/// Registration and routing agree: every command's registered name
/// routes back to exactly that command.
pub proof fn lemma_dispatch_round_trip(c: Command)
    ensures
        command_of(name_of(c)) == Some(c),
{
    reveal_strlit("claimcode");
    reveal_strlit("claimdaily");
    reveal_strlit("accounts");
    reveal_strlit("link");
    reveal_strlit("unlink");
    reveal_strlit("submitcode");
    // The six names differ pairwise: all lengths differ, except the one
    // pair that differs in its first character.
    assert("claimcode"@.len() == 9);
    assert("claimdaily"@.len() == 10);
    assert("accounts"@.len() == 8);
    assert("link"@.len() == 4);
    assert("unlink"@.len() == 6);
    assert("submitcode"@.len() == 10);
    assert("claimdaily"@[0] == 'c');
    assert("submitcode"@[0] == 's');
    assert("claimdaily"@ != "submitcode"@);
}

/// The follow-up a user picks on the accounts overview.
#[derive(Clone, Copy, PartialEq, Eq, Structural, Debug)]
pub enum AccountsChoice {
    StartLink,
    StartUnlink,
}

/// Which follow-up an overview interaction selects; a stale or forged
/// id selects none, and the workflow simply stops.
pub open spec fn accounts_choice_of(action: Seq<char>) -> Option<AccountsChoice> {
    if action == "link_account_button"@ {
        Some(AccountsChoice::StartLink)
    } else if action == "unlink_account_button"@ {
        Some(AccountsChoice::StartUnlink)
    } else {
        None
    }
}

/// Routes one accounts-overview interaction.
pub fn accounts_choice(action: &String) -> (c: Option<AccountsChoice>)
    ensures
        c == accounts_choice_of(action@),
{
    if *action == String::from_str("link_account_button") {
        Some(AccountsChoice::StartLink)
    } else if *action == String::from_str("unlink_account_button") {
        Some(AccountsChoice::StartUnlink)
    } else {
        None
    }
}

} // verus!
