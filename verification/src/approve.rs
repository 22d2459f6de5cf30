//! Granting an approval by way of the `gfb` program.

use crate::rpc::text_outcome;
use crate::text::{decimal, decimal_text};
use vstd::prelude::*;
use vstd::utf8::*;

verus! {

/// A program to run.
#[derive(Debug, PartialEq, Eq)]
pub struct Command {
    pub program: String,
    pub args: Vec<String>,
    /// A variable to set in the program's environment.
    pub env_name: String,
    pub env_value: String,
}

/// What a program that ran left behind.
#[derive(Debug, PartialEq, Eq)]
pub struct RunOutput {
    /// Whether it ended well.
    pub success: bool,
    pub stdout: Vec<u8>,
    pub stderr: Vec<u8>,
}

/// The run of `gfb` that approves the operation `op_id` for `ttl_secs` seconds.
pub fn approve_command(op_id: &str, ttl_secs: u64) -> (command: Command)
    ensures
        command.program@ == "gfb"@,
        crate::text::strings_view(command.args@) == seq![
            "approve"@,
            "--operation-id"@,
            op_id@,
        ],
        command.env_name@ == "GFB_APPROVE_TTL_SECS"@,
        command.env_value@ == decimal(ttl_secs as nat),
{
    let mut args: Vec<String> = Vec::new();
    args.push("approve".to_owned());
    args.push("--operation-id".to_owned());
    args.push(op_id.to_owned());
    assert(crate::text::strings_view(args@) =~= seq!["approve"@, "--operation-id"@, op_id@]);
    Command {
        program: "gfb".to_owned(),
        args,
        env_name: "GFB_APPROVE_TTL_SECS".to_owned(),
        env_value: decimal_text(ttl_secs),
    }
}

/// What `String::from_utf8_lossy` makes of `bytes`.
pub uninterp spec fn lossy_text(bytes: Seq<u8>) -> Seq<char>;

/// `String::from_utf8_lossy`, whose result depends on the bytes alone; bytes that are UTF-8 give
/// the text that they encode.
#[verifier::external_body]
fn from_utf8_lossy(bytes: &[u8]) -> (text: String)
    ensures
        text@ == lossy_text(bytes@),
        valid_utf8(bytes@) ==> text@ == decode_utf8(bytes@),
{
    String::from_utf8_lossy(bytes).into_owned()
}

/// What a run of `gfb` gave: what it printed, what it complained of where it ended badly, or why
/// it did not run.
pub open spec fn approval(run: Result<RunOutput, String>) -> Result<Seq<char>, Seq<char>> {
    match run {
        Ok(output) => if output.success {
            Ok(lossy_text(output.stdout@))
        } else {
            Err(lossy_text(output.stderr@))
        },
        Err(text) => Err("failed to run `gfb approve`: "@ + text@),
    }
}

/// What a run of `gfb` gave.
pub fn do_approve(run: Result<RunOutput, String>) -> (outcome: Result<String, String>)
    ensures
        text_outcome(outcome) == approval(run),
        run matches Ok(output) ==> {
            &&& outcome is Ok == output.success
            &&& output.success && valid_utf8(output.stdout@) ==> text_outcome(outcome) == Ok::<
                Seq<char>,
                Seq<char>,
            >(decode_utf8(output.stdout@))
            &&& !output.success && valid_utf8(output.stderr@) ==> text_outcome(outcome) == Err::<
                Seq<char>,
                Seq<char>,
            >(decode_utf8(output.stderr@))
        },
{
    match run {
        Ok(output) => if output.success {
            Ok(from_utf8_lossy(output.stdout.as_slice()))
        } else {
            Err(from_utf8_lossy(output.stderr.as_slice()))
        },
        Err(text) => {
            let mut message = "failed to run `gfb approve`: ".to_owned();
            message.append(text.as_str());
            Err(message)
        },
    }
}

/// A run that ended well gives what it printed, whatever it complained of; one that ended badly
/// gives what it complained of, whatever it printed; one that did not happen says why.
pub proof fn law_approval_goes_by_the_exit(run: Result<RunOutput, String>)
    ensures
        match run {
            Ok(output) => {
                &&& output.success ==> approval(run) == Ok::<Seq<char>, Seq<char>>(
                    lossy_text(output.stdout@),
                )
                &&& !output.success ==> approval(run) == Err::<Seq<char>, Seq<char>>(
                    lossy_text(output.stderr@),
                )
            },
            Err(why) => approval(run) matches Err(text) && text
                == "failed to run `gfb approve`: "@ + why@,
        },
{
}

/// Granting an approval: `gfb approve --operation-id` with the id as it is, and the time that it
/// holds in decimal.
pub proof fn law_granting(op_id: &str, ttl_secs: u64, command: Command)
    requires
        call_ensures(approve_command, (op_id, ttl_secs), command),
    ensures
        command.program@ == "gfb"@,
        command.args@.len() == 3,
        command.args@[0]@ == "approve"@,
        command.args@[1]@ == "--operation-id"@,
        command.args@[2]@ == op_id@,
        command.env_name@ == "GFB_APPROVE_TTL_SECS"@,
        crate::text::digits_value(command.env_value@) == ttl_secs,
{
    crate::text::law_decimal_stands_for_its_number(ttl_secs as nat);
    let args = crate::text::strings_view(command.args@);
    assert(args.len() == command.args@.len());
    assert(args[0] == command.args@[0]@);
    assert(args[1] == command.args@[1]@);
    assert(args[2] == command.args@[2]@);
}

/// What came of it goes by how the program ended, whatever it printed.
pub proof fn law_hearing_of_an_approval(
    run: Result<RunOutput, String>,
    outcome: Result<String, String>,
)
    requires
        call_ensures(do_approve, (run,), outcome),
    ensures
        match run {
            Ok(output) => {
                &&& output.success ==> (outcome matches Ok(text) && text@ == lossy_text(
                    output.stdout@,
                ))
                &&& !output.success ==> (outcome matches Err(text) && text@ == lossy_text(
                    output.stderr@,
                ))
            },
            Err(why) => outcome matches Err(text) && text@ == "failed to run `gfb approve`: "@
                + why@,
        },
{
}

} // verus!
