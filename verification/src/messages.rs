//! User-facing message texts, built exactly as the contracts state.
//!
//! Every terminal path of a workflow ends in one of these messages (or
//! in silence, for a timeout or a cancellation); nothing internal leaks
//! into them.

use vstd::prelude::*;
use vstd::string::StringExecFns;

use crate::cookie::CookieError;
use crate::model::{CredentialModel, StoreError};
use crate::store::CredentialFields;

verus! {

pub open spec fn code_success_text(code: Seq<char>, uid: Seq<char>) -> Seq<char> {
    "Successfully claimed code `"@ + code + "` on "@ + uid
}

pub open spec fn code_failure_text(code: Seq<char>, uid: Seq<char>, reason: Seq<char>) -> Seq<
    char,
> {
    "Error claiming code `"@ + code + "` on "@ + uid + ": `"@ + reason + "`"@
}

pub open spec fn auto_claim_success_text(code: Seq<char>, uid: Seq<char>) -> Seq<char> {
    "Successfully auto-claimed code `"@ + code + "` on "@ + uid
}

pub open spec fn auto_claim_failure_text(code: Seq<char>, uid: Seq<char>, reason: Seq<char>) -> Seq<
    char,
> {
    "Error auto-claiming code `"@ + code + "` on "@ + uid + ": `"@ + reason + "`"@
}

pub open spec fn daily_success_text(uid: Seq<char>) -> Seq<char> {
    "Successfully claimed daily on "@ + uid
}

pub open spec fn daily_failure_text(uid: Seq<char>, reason: Seq<char>) -> Seq<char> {
    "Error claiming daily on "@ + uid + ": `"@ + reason + "`"@
}

pub open spec fn no_accounts_text() -> Seq<char> {
    "You have no linked accounts"@
}

pub open spec fn submit_gate_text() -> Seq<char> {
    "You may only submit redemption codes if you have at least one linked account."@
}

pub open spec fn code_exists_text(code: Seq<char>) -> Seq<char> {
    "Code "@ + code + " already exists in the system."@
}

pub open spec fn code_submitted_text(code: Seq<char>) -> Seq<char> {
    "Submitted code "@ + code + "!"@
}

pub open spec fn linked_text() -> Seq<char> {
    "Successfully linked account!"@
}

pub open spec fn already_linked_text() -> Seq<char> {
    "This account is already linked."@
}

pub open spec fn unlinked_text() -> Seq<char> {
    "Successfully unlinked account!"@
}

pub open spec fn link_rejected_text(reason: Seq<char>) -> Seq<char> {
    "Could not link account:\n"@ + reason
}

/// Why a raw credential string was rejected, in words.
pub open spec fn cookie_error_text(e: CookieError) -> Seq<char> {
    match e {
        CookieError::NotAscii => "the credential text must be plain ASCII"@,
        CookieError::MissingLtuid => "the credential text holds no ltuid token"@,
        CookieError::MissingLtoken => "the credential text holds no ltoken token"@,
        CookieError::MissingCookieToken => "the credential text holds no cookie_token token"@,
        CookieError::MissingAccountId => "the credential text holds no account_id token"@,
    }
}

/// A store refusal, in words.
pub open spec fn store_error_text(e: StoreError) -> Seq<char> {
    match e {
        StoreError::DuplicateMapping => already_linked_text(),
        StoreError::NotLinked => "No such linked account."@,
        StoreError::DuplicateCode => "This code was already submitted."@,
        StoreError::Conflict => "Could not update the account store."@,
    }
}

/// The decomposed credential, one field to a line, as the final
/// confirmation step shows it.
pub open spec fn credential_display_text(c: CredentialModel) -> Seq<char> {
    "ltuid = "@ + c.ltuid + "\nltoken = "@ + c.ltoken + "\ncookie_token = "@ + c.cookie_token
        + "\naccount_id = "@ + c.account_id + "\nlang = "@ + c.lang
}

pub fn code_success_message(code: &String, uid: &String) -> (r: String)
    ensures
        r@ == code_success_text(code@, uid@),
{
    String::from_str("Successfully claimed code `").concat(code.as_str()).concat("` on ").concat(
        uid.as_str(),
    )
}

pub fn code_failure_message(code: &String, uid: &String, reason: &String) -> (r: String)
    ensures
        r@ == code_failure_text(code@, uid@, reason@),
{
    String::from_str("Error claiming code `").concat(code.as_str()).concat("` on ").concat(
        uid.as_str(),
    ).concat(": `").concat(reason.as_str()).concat("`")
}

pub fn auto_claim_success_message(code: &String, uid: &String) -> (r: String)
    ensures
        r@ == auto_claim_success_text(code@, uid@),
{
    String::from_str("Successfully auto-claimed code `").concat(code.as_str()).concat(
        "` on ",
    ).concat(uid.as_str())
}

pub fn auto_claim_failure_message(code: &String, uid: &String, reason: &String) -> (r: String)
    ensures
        r@ == auto_claim_failure_text(code@, uid@, reason@),
{
    String::from_str("Error auto-claiming code `").concat(code.as_str()).concat("` on ").concat(
        uid.as_str(),
    ).concat(": `").concat(reason.as_str()).concat("`")
}

pub fn daily_success_message(uid: &String) -> (r: String)
    ensures
        r@ == daily_success_text(uid@),
{
    String::from_str("Successfully claimed daily on ").concat(uid.as_str())
}

pub fn daily_failure_message(uid: &String, reason: &String) -> (r: String)
    ensures
        r@ == daily_failure_text(uid@, reason@),
{
    String::from_str("Error claiming daily on ").concat(uid.as_str()).concat(": `").concat(
        reason.as_str(),
    ).concat("`")
}

pub fn no_accounts_message() -> (r: String)
    ensures
        r@ == no_accounts_text(),
{
    String::from_str("You have no linked accounts")
}

pub fn submit_gate_message() -> (r: String)
    ensures
        r@ == submit_gate_text(),
{
    String::from_str("You may only submit redemption codes if you have at least one linked account.")
}

pub fn code_exists_message(code: &String) -> (r: String)
    ensures
        r@ == code_exists_text(code@),
{
    String::from_str("Code ").concat(code.as_str()).concat(" already exists in the system.")
}

pub fn code_submitted_message(code: &String) -> (r: String)
    ensures
        r@ == code_submitted_text(code@),
{
    String::from_str("Submitted code ").concat(code.as_str()).concat("!")
}

pub fn linked_message() -> (r: String)
    ensures
        r@ == linked_text(),
{
    String::from_str("Successfully linked account!")
}

pub fn already_linked_message() -> (r: String)
    ensures
        r@ == already_linked_text(),
{
    String::from_str("This account is already linked.")
}

pub fn unlinked_message() -> (r: String)
    ensures
        r@ == unlinked_text(),
{
    String::from_str("Successfully unlinked account!")
}

pub fn link_rejected_message(reason: &String) -> (r: String)
    ensures
        r@ == link_rejected_text(reason@),
{
    String::from_str("Could not link account:\n").concat(reason.as_str())
}

pub fn cookie_error_message(e: &CookieError) -> (r: String)
    ensures
        r@ == cookie_error_text(*e),
{
    match e {
        CookieError::NotAscii => String::from_str("the credential text must be plain ASCII"),
        CookieError::MissingLtuid => String::from_str("the credential text holds no ltuid token"),
        CookieError::MissingLtoken => String::from_str(
            "the credential text holds no ltoken token",
        ),
        CookieError::MissingCookieToken => String::from_str(
            "the credential text holds no cookie_token token",
        ),
        CookieError::MissingAccountId => String::from_str(
            "the credential text holds no account_id token",
        ),
    }
}

pub fn store_error_message(e: &StoreError) -> (r: String)
    ensures
        r@ == store_error_text(*e),
{
    match e {
        StoreError::DuplicateMapping => already_linked_message(),
        StoreError::NotLinked => String::from_str("No such linked account."),
        StoreError::DuplicateCode => String::from_str("This code was already submitted."),
        StoreError::Conflict => String::from_str("Could not update the account store."),
    }
}

pub fn credential_display(c: &CredentialFields) -> (r: String)
    ensures
        r@ == credential_display_text(c@),
{
    String::from_str("ltuid = ").concat(c.ltuid.as_str()).concat("\nltoken = ").concat(
        c.ltoken.as_str(),
    ).concat("\ncookie_token = ").concat(c.cookie_token.as_str()).concat(
        "\naccount_id = ",
    ).concat(c.account_id.as_str()).concat("\nlang = ").concat(c.lang.as_str())
}

} // verus!
