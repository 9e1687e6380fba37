use vstd::prelude::*;
use vstd::string::StringSliceAdditionalSpecFns;
use crate::text::string_from_chars;

verus! {

/// What a request to the agent asks for.
#[derive(Debug, Clone, Copy, PartialEq, Eq, Structural)]
pub enum RequestType {
    Chat,
    SpecOperation,
    CommandExecution,
    FileOperation,
    HealthCheck,
}

/// A request to propose a command.
#[derive(Debug, Clone)]
pub struct CommandExecutionRequest {
    pub command: String,
    pub working_directory: String,
    pub description: String,
}

/// What came of a command request.
#[derive(Debug, Clone)]
pub struct CommandExecutionResponse {
    pub block_id: String,
    pub approval_status: String,
    pub output: Option<CommandExecutionOutput>,
}

/// The output of a command, as sent back.
#[derive(Debug, Clone)]
pub struct CommandExecutionOutput {
    pub stdout: String,
    pub stderr: String,
    pub exit_code: i32,
    pub success: bool,
}

/// A human decision on a proposal, as sent to the agent.
#[derive(Debug, Clone)]
pub struct CommandApprovalRequest {
    pub block_id: String,
    pub approved: bool,
}

/// The base64 alphabet.
pub open spec fn b64_alphabet() -> Seq<char> {
    "ABCDEFGHIJKLMNOPQRSTUVWXYZabcdefghijklmnopqrstuvwxyz0123456789+/"@
}

/// The four characters that encode three bytes.
pub open spec fn b64_quad(b1: u8, b2: u8, b3: u8) -> Seq<char> {
    seq![
        b64_alphabet()[(b1 / 4) as int],
        b64_alphabet()[(b1 % 4) * 16 + b2 / 16],
        b64_alphabet()[(b2 % 16) * 4 + b3 / 64],
        b64_alphabet()[(b3 % 64) as int],
    ]
}

/// Standard base64 with `=` padding.
pub open spec fn base64(b: Seq<u8>) -> Seq<char>
    decreases b.len(),
{
    if b.len() == 0 {
        Seq::empty()
    } else if b.len() == 1 {
        b64_quad(b[0], 0, 0).subrange(0, 2) + seq!['=', '=']
    } else if b.len() == 2 {
        b64_quad(b[0], b[1], 0).subrange(0, 3) + seq!['=']
    } else {
        b64_quad(b[0], b[1], b[2]) + base64(b.subrange(3, b.len() as int))
    }
}

/// Base64 of the UTF-8 bytes of a text, for basic authentication headers.
pub fn encode(input: &str) -> (r: String)
    ensures
        r@ == base64(input.spec_bytes()),
{
    let table = "ABCDEFGHIJKLMNOPQRSTUVWXYZabcdefghijklmnopqrstuvwxyz0123456789+/";
    proof {
        reveal_strlit("ABCDEFGHIJKLMNOPQRSTUVWXYZabcdefghijklmnopqrstuvwxyz0123456789+/");
    }
    let bytes = input.as_bytes();
    let ghost b = bytes@;
    let n = bytes.len();
    let mut out: Vec<char> = Vec::new();
    let mut i: usize = 0;
    assert(b.subrange(0, n as int) =~= b);
    while n - i >= 3
        invariant
            b == input.spec_bytes(),
            bytes@ == b,
            n == b.len(),
            i <= n,
            table@ == b64_alphabet(),
            table@.len() == 64,
            out@ + base64(b.subrange(i as int, n as int)) == base64(b),
        decreases n - i,
    {
        let b1 = bytes[i];
        let b2 = bytes[i + 1];
        let b3 = bytes[i + 2];
        let ghost rest = b.subrange(i as int, n as int);
        let ghost prev = out@;
        assert(rest.subrange(3, rest.len() as int) =~= b.subrange(i + 3, n as int));
        out.push(table.get_char((b1 / 4) as usize));
        out.push(table.get_char(((b1 % 4) * 16 + b2 / 16) as usize));
        out.push(table.get_char(((b2 % 16) * 4 + b3 / 64) as usize));
        out.push(table.get_char((b3 % 64) as usize));
        assert(out@ =~= prev + b64_quad(b1, b2, b3));
        assert(out@ + base64(b.subrange(i + 3, n as int)) =~= prev + base64(rest));
        i += 3;
    }
    let ghost prev = out@;
    let ghost rest = b.subrange(i as int, n as int);
    if n - i == 1 {
        let b1 = bytes[i];
        out.push(table.get_char((b1 / 4) as usize));
        out.push(table.get_char(((b1 % 4) * 16) as usize));
        out.push('=');
        out.push('=');
        assert(out@ =~= prev + base64(rest));
    } else if n - i == 2 {
        let b1 = bytes[i];
        let b2 = bytes[i + 1];
        out.push(table.get_char((b1 / 4) as usize));
        out.push(table.get_char(((b1 % 4) * 16 + b2 / 16) as usize));
        out.push(table.get_char(((b2 % 16) * 4) as usize));
        out.push('=');
        assert(out@ =~= prev + base64(rest));
    } else {
        assert(out@ =~= prev + base64(rest));
    }
    string_from_chars(&out)
}

} // verus!
