//! GM commands: their shape, how requests are turned into them, and which raw
//! ones may be queued.
use vstd::prelude::*;

use crate::error;
use crate::error::AppError;
use crate::error::Failure;
use crate::text;

verus! {

/// The most bytes that a command may have in UTF-8.
pub const MAX_COMMAND_LEN: usize = 512;

/// A command text without the white space around it and without the dots that
/// lead it.
pub open spec fn normalized(s: Seq<char>) -> Seq<char> {
    text::trimmed(text::without_leading(text::trimmed(s), '.'))
}

/// What is wrong with a command, if anything is.
pub open spec fn command_fault(command: Seq<char>) -> Option<Failure> {
    if command.len() == 0 {
        Some(Failure::BadRequest("command must not be empty"@))
    } else if vstd::utf8::encode_utf8(command).len() > MAX_COMMAND_LEN {
        Some(
            Failure::BadRequest(
                "command exceeds max length "@ + text::decimal(MAX_COMMAND_LEN as nat),
            ),
        )
    } else if command.contains('\0') || command.contains('\n') || command.contains('\r') {
        Some(Failure::BadRequest("command must be a single line without NUL bytes"@))
    } else {
        None
    }
}

/// The command that a raw request asks for.
pub open spec fn raw_command(command: Seq<char>) -> Result<Seq<char>, Failure> {
    match command_fault(normalized(command)) {
        Some(fault) => Err(fault),
        None => Ok(normalized(command)),
    }
}

/// The single word that the field `field` holds, or what is wrong with it.
pub open spec fn single_token(field: Seq<char>, value: Seq<char>) -> Result<Seq<char>, Failure> {
    let token = text::trimmed(value);
    if token.len() == 0 {
        Err(Failure::BadRequest(field + " must not be empty"@))
    } else if text::has_white_space(token) {
        Err(Failure::BadRequest(field + " must be a single token"@))
    } else if token.contains('\'') || token.contains('"') || token.contains('\n')
        || token.contains('\r') {
        Err(Failure::BadRequest(field + " contains unsupported characters"@))
    } else {
        Ok(token)
    }
}

/// The command that revives a character.
pub open spec fn revive_command(character: Seq<char>) -> Result<Seq<char>, Failure> {
    match single_token("character"@, character) {
        Err(fault) => Err(fault),
        Ok(character) => Ok("revive "@ + character),
    }
}

/// The command that teleports a character.
pub open spec fn teleport_command(character: Seq<char>, teleport: Seq<char>) -> Result<
    Seq<char>,
    Failure,
> {
    match single_token("character"@, character) {
        Err(fault) => Err(fault),
        Ok(character) => match single_token("teleport"@, teleport) {
            Err(fault) => Err(fault),
            Ok(teleport) => Ok("tele name "@ + character + " "@ + teleport),
        },
    }
}

/// Whether the allowlist entry `entry` covers `command`: the command is the
/// entry, or goes on after it with white space.
pub open spec fn entry_covers(entry: Seq<char>, command: Seq<char>) -> bool {
    ||| command == entry
    ||| {
        &&& entry.len() < command.len()
        &&& entry.is_prefix_of(command)
        &&& text::is_white_space(command[entry.len() as int])
    }
}

/// Whether some entry of the allowlist covers `command`.
pub open spec fn allowlisted(allowlist: Seq<Seq<char>>, command: Seq<char>) -> bool {
    exists|i: int| 0 <= i < allowlist.len() && entry_covers(#[trigger] allowlist[i], command)
}

/// Why a raw command is refused, if it is.
pub open spec fn raw_command_refusal(allowlist: Seq<Seq<char>>, command: Seq<char>) -> Option<
    Failure,
> {
    if allowlist.len() == 0 {
        Some(
            Failure::Forbidden(
                "raw gm commands are disabled because GM_TOOL_COMMAND_ALLOWLIST is empty"@,
            ),
        )
    } else if allowlisted(allowlist, command) {
        None
    } else {
        Some(Failure::Forbidden("raw gm command is not allowlisted: "@ + command))
    }
}

/// The text of a SQL string literal for `value`, without the quotes around it: every
/// quote is written twice, and backslashes are left as they are.
pub open spec fn sql_literal(value: Seq<char>) -> Result<Seq<char>, Failure> {
    if value.contains('\0') {
        Err(Failure::BadRequest("command must not contain NUL bytes"@))
    } else {
        Ok(text::doubled(value, '\''))
    }
}

/// Checks that a command can be queued: it is not empty, not too long, and one
/// line without NUL.
pub fn validate_command(command: &str) -> (r: Result<(), AppError>)
    ensures
        r is Ok <==> command_fault(command@) is None,
        r matches Err(e) ==> command_fault(command@) == Some(e@),
{
    if command.is_empty() {
        return Err(AppError::BadRequest("command must not be empty".to_owned()));
    }
    if command.as_bytes().len() > MAX_COMMAND_LEN {
        let mut message = "command exceeds max length ".to_owned();
        message.append(text::to_decimal(MAX_COMMAND_LEN as u64).as_str());
        return Err(AppError::BadRequest(message));
    }
    if text::contains(command, '\0') || text::contains(command, '\n') || text::contains(
        command,
        '\r',
    ) {
        return Err(
            AppError::BadRequest("command must be a single line without NUL bytes".to_owned()),
        );
    }
    Ok(())
}

/// An allowlist entry as it is compared with commands.
pub fn normalize_allowlist_entry(value: &str) -> (r: String)
    ensures
        r@ == normalized(value@),
{
    text::trim(text::trim_start_matches(text::trim(value), '.')).to_owned()
}

/// The command that a raw request asks for: without the white space around it,
/// without leading dots, and valid.
pub fn normalize_raw_command(command: &str) -> (r: Result<String, AppError>)
    ensures
        error::outcome(r) == raw_command(command@),
{
    let normalized = text::trim(text::trim_start_matches(text::trim(command), '.')).to_owned();
    validate_command(normalized.as_str())?;
    Ok(normalized)
}

/// Checks that the field `field` holds a single word without quotes.
pub fn validate_single_token(field: &str, value: &str) -> (r: Result<String, AppError>)
    ensures
        error::outcome(r) == single_token(field@, value@),
{
    let trimmed = text::trim(value);
    let mut message = field.to_owned();
    if trimmed.is_empty() {
        message.append(" must not be empty");
        return Err(AppError::BadRequest(message));
    }
    if text::contains_white_space(trimmed) {
        message.append(" must be a single token");
        return Err(AppError::BadRequest(message));
    }
    if text::contains(trimmed, '\'') || text::contains(trimmed, '"') || text::contains(
        trimmed,
        '\n',
    ) || text::contains(trimmed, '\r') {
        message.append(" contains unsupported characters");
        return Err(AppError::BadRequest(message));
    }
    Ok(trimmed.to_owned())
}

/// The command that revives `character`.
pub fn build_revive_command(character: &str) -> (r: Result<String, AppError>)
    ensures
        error::outcome(r) == revive_command(character@),
{
    let character = validate_single_token("character", character)?;
    let mut command = "revive ".to_owned();
    command.append(character.as_str());
    Ok(command)
}

/// The command that teleports `character` to the place named `teleport`.
pub fn build_teleport_command(character: &str, teleport: &str) -> (r: Result<String, AppError>)
    ensures
        error::outcome(r) == teleport_command(character@, teleport@),
{
    let character = validate_single_token("character", character)?;
    let teleport = validate_single_token("teleport", teleport)?;
    let mut command = "tele name ".to_owned();
    command.append(character.as_str());
    command.append(" ");
    command.append(teleport.as_str());
    Ok(command)
}

/// Whether the allowlist entry `entry` covers `command`.
pub fn command_matches_allowlist_entry(command: &str, entry: &str) -> (r: bool)
    ensures
        r == entry_covers(entry@, command@),
{
    if text::same(command, entry) {
        return true;
    }
    match text::strip_prefix(command, entry) {
        None => false,
        Some(suffix) => !suffix.is_empty() && suffix.get_char(0).is_whitespace(),
    }
}

/// Checks that the allowlist covers a raw command.
pub fn authorize_raw_command(allowlist: &[String], command: &str) -> (r: Result<(), AppError>)
    ensures
        r is Ok <==> raw_command_refusal(allowlist.deep_view(), command@) is None,
        r matches Err(e) ==> raw_command_refusal(allowlist.deep_view(), command@) == Some(e@),
{
    if allowlist.is_empty() {
        return Err(
            AppError::Forbidden(
                "raw gm commands are disabled because GM_TOOL_COMMAND_ALLOWLIST is empty".to_owned(),
            ),
        );
    }
    let ghost entries = allowlist.deep_view();
    let mut i: usize = 0;
    while i < allowlist.len()
        invariant
            entries == allowlist.deep_view(),
            i <= allowlist.len(),
            forall|j: int| 0 <= j < i ==> !entry_covers(#[trigger] entries[j], command@),
        decreases allowlist.len() - i,
    {
        assert(entries[i as int] == allowlist[i as int]@);
        if command_matches_allowlist_entry(command, allowlist[i].as_str()) {
            return Ok(());
        }
        i = i + 1;
    }
    let mut message = "raw gm command is not allowlisted: ".to_owned();
    message.append(command);
    Err(AppError::Forbidden(message))
}

/// The text of a SQL string literal for `value`: every quote is written twice, and
/// backslashes are left as they are.
pub fn escape_sql_literal(value: &str) -> (r: Result<String, AppError>)
    ensures
        error::outcome(r) == sql_literal(value@),
{
    if text::contains(value, '\0') {
        return Err(AppError::BadRequest("command must not contain NUL bytes".to_owned()));
    }
    Ok(text::double(value, '\''))
}

} // verus!
