//! One turn of a connection: from the bytes that came to what goes back.
use super::command::{try_command, Command, CommandResult};
use super::errors::CommandError;
use super::execute::{step, Response, ResponseModel};
use super::replicate::errors::ReplError;
use super::{Server, ServerModel};
use crate::resp::parse::{parse_value, Parser};
use crate::resp::serialize::{simple_err, Serializer};
use crate::stream::get_current_time;
use vstd::prelude::*;

verus! {

/// The reply that tells the client of an error: a simple error with the
/// text of the error.
pub open spec fn error_reply(e: CommandError) -> ResponseModel {
    ResponseModel { text: simple_err(e.message()), payload: None, result: CommandResult::Error }
}

/// What a server does with the bytes of one request that came on the
/// connection `conn` at the time `now`: bytes that are no value of the wire
/// protocol close the connection (`None`) and change nothing; a request that
/// is no command, and a command that fails, are answered with an error; a
/// command is run and its reply given. The texts of a request are taken as
/// they are written; only the names of commands and options are matched
/// without regard to case.
pub open spec fn handle(s: ServerModel, conn: u64, data: Seq<u8>, now: u64) -> (
    Option<ResponseModel>,
    ServerModel,
) {
    match parse_value(data, 0) {
        Err(_) => (None, s),
        Ok((v, _)) => match try_command(v) {
            Err(e) => (Some(error_reply(e)), s),
            Ok(cmd) => match step(cmd, s, conn, now) {
                (Ok(resp), after) => (Some(resp), after),
                (Err(e), after) => (Some(error_reply(e)), after),
            },
        },
    }
}

/// What a reply that may be missing stands for.
pub open spec fn handled(r: Option<Response>) -> Option<ResponseModel> {
    match r {
        Some(resp) => Some(resp@),
        None => None,
    }
}

/// The reply that tells the client of an error.
fn error_response(e: CommandError) -> (r: Response)
    ensures
        r@ == error_reply(e),
{
    let text = e.to_string();
    Response {
        text: Serializer::to_simple_err(text.as_str()),
        payload: None,
        result: CommandResult::Error,
    }
}

/// Takes one request from the connection `conn` at the time `now`, in
/// milliseconds: `None` closes the connection.
pub fn handle_request_at(server: &mut Server, conn: u64, data: &[u8], now: u64) -> (r: Option<
    Response,
>)
    requires
        old(server).wf(),
    ensures
        final(server).wf(),
        (handled(r), final(server)@) == handle(old(server)@, conn, data@, now),
{
    let mut parser = Parser::new(data);
    let data = match parser.parse() {
        Ok(d) => d,
        Err(_) => {
            return None;
        },
    };
    let cmd = match Command::from_data(data) {
        Ok(c) => c,
        Err(e) => {
            return Some(error_response(e));
        },
    };
    match cmd.execute_at(server, conn, now) {
        Ok(resp) => Some(resp),
        Err(e) => Some(error_response(e)),
    }
}

/// Takes one request from the connection `conn` at the time that the clock
/// gives.
pub fn handle_request(server: &mut Server, conn: u64, data: &[u8]) -> (r: Option<Response>)
    requires
        old(server).wf(),
    ensures
        final(server).wf(),
        exists|now: u64|
            (handled(r), final(server)@) == #[trigger] handle(old(server)@, conn, data@, now),
{
    let now = get_current_time() as u64;
    handle_request_at(server, conn, data, now)
}

/// Whether the bytes of a reply are the text `expected`, whatever the case
/// of the letters.
pub open spec fn expect(data: Seq<u8>, expected: Seq<char>) -> Result<(), ReplError> {
    match parse_value(data, 0) {
        Err(_) => Err(ReplError::InvalidResponse),
        Ok((v, _)) => if v.says(expected) {
            Ok(())
        } else {
            Err(ReplError::UnexpectedResponse)
        },
    }
}

/// Checks that the bytes of a reply are the text `expected`: a string or an
/// error of that text, whatever the case of the letters.
pub fn expect_resp(data: &[u8], expected: &str) -> (r: Result<(), ReplError>)
    ensures
        r == expect(data@, expected@),
{
    let mut parser = Parser::new(data);
    match parser.parse() {
        Ok(resp) => {
            if resp.says(expected) {
                Ok(())
            } else {
                Err(ReplError::UnexpectedResponse)
            }
        },
        Err(_) => Err(ReplError::InvalidResponse),
    }
}

} // verus!
