use vstd::prelude::*;
use crate::registry::CommandBlock;
use crate::text::{
    contains_text, lines, lines_of, starts_with, str_contains, str_starts_with, string_views, trim,
    trimmed,
};

verus! {

/// Finds the shell commands that an agent's answer proposes: fenced code blocks opened
/// by one of the command markers.
pub struct ResponseParser {
    /// Openings of a code block that holds commands.
    pub command_patterns: Vec<String>,
    /// Markers of a line that reports a file operation.
    pub operation_patterns: Vec<String>,
}

/// Some pattern occurs in `s`.
pub open spec fn contains_any(s: Seq<char>, pats: Seq<Seq<char>>) -> bool {
    exists|i: int| 0 <= i < pats.len() && contains_text(s, #[trigger] pats[i])
}

/// `s` begins with some pattern.
pub open spec fn starts_with_any(s: Seq<char>, pats: Seq<Seq<char>>) -> bool {
    exists|i: int| 0 <= i < pats.len() && starts_with(s, #[trigger] pats[i])
}

/// The state of a scan over the lines of an answer: inside a block or not, the text of
/// the block so far, the commands found.
pub struct ScanState {
    pub in_block: bool,
    pub current: Seq<char>,
    pub commands: Seq<Seq<char>>,
}

/// One line of the scan: an opening marker starts a block; a closing fence ends it and
/// keeps its trimmed text when not blank; inside a block a line is collected.
pub open spec fn scan_step(st: ScanState, line: Seq<char>, pats: Seq<Seq<char>>) -> ScanState {
    if starts_with_any(trim(line), pats) {
        ScanState { in_block: true, current: Seq::empty(), commands: st.commands }
    } else if st.in_block && trim(line) == "```"@ {
        ScanState {
            in_block: false,
            current: Seq::empty(),
            commands: if trim(st.current).len() > 0 {
                st.commands.push(trim(st.current))
            } else {
                st.commands
            },
        }
    } else if st.in_block {
        ScanState { in_block: true, current: st.current + line + "\n"@, commands: st.commands }
    } else {
        st
    }
}

/// The scan over a sequence of lines.
pub open spec fn scan(ls: Seq<Seq<char>>, pats: Seq<Seq<char>>) -> ScanState
    decreases ls.len(),
{
    if ls.len() == 0 {
        ScanState { in_block: false, current: Seq::empty(), commands: Seq::empty() }
    } else {
        scan_step(scan(ls.drop_last(), pats), ls.last(), pats)
    }
}

impl ResponseParser {
    /// A parser for bash, sh and shell blocks and for the three file operation markers.
    pub fn new() -> (r: ResponseParser)
        ensures
            string_views(r.command_patterns@) == seq!["```bash"@, "```sh"@, "```shell"@],
            string_views(r.operation_patterns@) == seq![
                "Reading file:"@,
                "Writing file:"@,
                "Creating file:"@,
            ],
    {
        let command_patterns = vec!["```bash".to_owned(), "```sh".to_owned(), "```shell".to_owned()];
        let operation_patterns = vec![
            "Reading file:".to_owned(),
            "Writing file:".to_owned(),
            "Creating file:".to_owned(),
        ];
        let r = ResponseParser { command_patterns, operation_patterns };
        assert(string_views(r.command_patterns@) =~= seq!["```bash"@, "```sh"@, "```shell"@]);
        assert(string_views(r.operation_patterns@) =~= seq![
            "Reading file:"@,
            "Writing file:"@,
            "Creating file:"@,
        ]);
        r
    }

    /// Whether the answer holds a command marker anywhere.
    pub fn contains_commands(&self, response_text: &str) -> (r: bool)
        ensures
            r == contains_any(response_text@, string_views(self.command_patterns@)),
    {
        any_contained(response_text, &self.command_patterns)
    }

    /// Whether a trimmed line opens a command block.
    fn opens_block(&self, trimmed_line: &str) -> (r: bool)
        ensures
            r == starts_with_any(trimmed_line@, string_views(self.command_patterns@)),
    {
        let ghost pats = string_views(self.command_patterns@);
        let mut i: usize = 0;
        while i < self.command_patterns.len()
            invariant
                pats == string_views(self.command_patterns@),
                i <= self.command_patterns@.len(),
                forall|k: int| 0 <= k < i ==> !starts_with(trimmed_line@, #[trigger] pats[k]),
            decreases self.command_patterns@.len() - i,
        {
            if str_starts_with(trimmed_line, self.command_patterns[i].as_str()) {
                assert(starts_with(trimmed_line@, pats[i as int]));
                return true;
            }
            i += 1;
        }
        false
    }

    /// The commands of the answer: the trimmed, non-blank text of each closed block that
    /// a command marker opened, in order.
    pub fn extract_commands(&self, response_text: &str) -> (r: Vec<String>)
        ensures
            string_views(r@) == scan(
                lines_of(response_text@),
                string_views(self.command_patterns@),
            ).commands,
    {
        let ghost pats = string_views(self.command_patterns@);
        let ls = lines(response_text);
        let ghost all = lines_of(response_text@);
        let mut commands: Vec<String> = Vec::new();
        let mut current = String::new();
        let mut in_block = false;
        let mut i: usize = 0;
        assert(string_views(commands@) =~= Seq::<Seq<char>>::empty());
        assert(all.subrange(0, 0) =~= Seq::<Seq<char>>::empty());
        while i < ls.len()
            invariant
                pats == string_views(self.command_patterns@),
                string_views(ls@) == all,
                i <= ls@.len(),
                scan(all.subrange(0, i as int), pats) == (ScanState {
                    in_block,
                    current: current@,
                    commands: string_views(commands@),
                }),
            decreases ls@.len() - i,
        {
            let ghost before = all.subrange(0, i as int);
            proof {
                assert(all.subrange(0, i + 1).drop_last() =~= before);
                assert(all.subrange(0, i + 1).last() == ls@[i as int]@);
            }
            let line = ls[i].as_str();
            let t = trimmed(line);
            if self.opens_block(t.as_str()) {
                in_block = true;
                current = String::new();
            } else if in_block && str_eq_fence(t.as_str()) {
                let c = trimmed(current.as_str());
                if c.as_str().unicode_len() > 0 {
                    let ghost old_cmds = commands@;
                    commands.push(c);
                    proof {
                        assert(string_views(commands@) =~= string_views(old_cmds).push(
                            trim(current@),
                        ));
                    }
                }
                in_block = false;
                current = String::new();
            } else if in_block {
                current.append(line);
                current.append("\n");
            }
            i += 1;
        }
        assert(all.subrange(0, ls@.len() as int) =~= all);
        commands
    }
}

/// Whether a trimmed line is a closing fence.
fn str_eq_fence(t: &str) -> (r: bool)
    ensures
        r == (t@ == "```"@),
{
    crate::text::same_text(t, "```")
}

/// Whether some pattern occurs in the text.
fn any_contained(text: &str, patterns: &Vec<String>) -> (r: bool)
    ensures
        r == contains_any(text@, string_views(patterns@)),
{
    let ghost pats = string_views(patterns@);
    let mut i: usize = 0;
    while i < patterns.len()
        invariant
            pats == string_views(patterns@),
            i <= patterns@.len(),
            forall|k: int| 0 <= k < i ==> !contains_text(text@, #[trigger] pats[k]),
        decreases patterns@.len() - i,
    {
        if str_contains(text, patterns[i].as_str()) {
            assert(contains_text(text@, pats[i as int]));
            return true;
        }
        i += 1;
    }
    false
}

/// A piece of a message as shown in the chat.
#[derive(Debug, Clone)]
pub enum MessageContent {
    Text(String),
    CommandBlock(CommandBlock),
}

/// The state of the scan that splits an answer into pieces: inside a command block or
/// not, the plain text gathered, the block text gathered, the pieces so far.
pub struct PieceScan {
    pub in_code: bool,
    pub text: Seq<char>,
    pub code: Seq<char>,
    pub pieces: Seq<Seq<char>>,
}

/// `pieces` with the trimmed text added when it is not blank.
pub open spec fn flush(pieces: Seq<Seq<char>>, text: Seq<char>) -> Seq<Seq<char>> {
    if trim(text).len() > 0 {
        pieces.push(trim(text))
    } else {
        pieces
    }
}

/// One line of the split: an opening marker ends the plain text and starts a block; a
/// closing fence ends the block and keeps it as a `Command:` piece when not blank; block
/// lines are gathered; a line with an operation marker ends the plain text and stands
/// as a piece of its own; other lines are gathered as plain text.
pub open spec fn piece_step(
    st: PieceScan,
    line: Seq<char>,
    commands: Seq<Seq<char>>,
    operations: Seq<Seq<char>>,
) -> PieceScan {
    if starts_with_any(trim(line), commands) {
        PieceScan {
            in_code: true,
            text: Seq::empty(),
            code: Seq::empty(),
            pieces: flush(st.pieces, st.text),
        }
    } else if st.in_code && trim(line) == "```"@ {
        PieceScan {
            in_code: false,
            text: st.text,
            code: Seq::empty(),
            pieces: if trim(st.code).len() > 0 {
                st.pieces.push("Command:\n"@ + trim(st.code))
            } else {
                st.pieces
            },
        }
    } else if st.in_code {
        PieceScan { code: st.code + line + "\n"@, ..st }
    } else if contains_any(line, operations) {
        PieceScan { text: Seq::empty(), pieces: flush(st.pieces, st.text).push(line), ..st }
    } else {
        PieceScan { text: st.text + line + "\n"@, ..st }
    }
}

/// The split over a sequence of lines.
pub open spec fn piece_scan(
    ls: Seq<Seq<char>>,
    commands: Seq<Seq<char>>,
    operations: Seq<Seq<char>>,
) -> PieceScan
    decreases ls.len(),
{
    if ls.len() == 0 {
        PieceScan { in_code: false, text: Seq::empty(), code: Seq::empty(), pieces: Seq::empty() }
    } else {
        piece_step(piece_scan(ls.drop_last(), commands, operations), ls.last(), commands, operations)
    }
}

/// The pieces of an answer: those of the split with the remaining plain text, or the
/// whole answer as one piece when the split finds none.
pub open spec fn pieces_of(
    response: Seq<char>,
    commands: Seq<Seq<char>>,
    operations: Seq<Seq<char>>,
) -> Seq<Seq<char>> {
    let st = piece_scan(lines_of(response), commands, operations);
    let all = flush(st.pieces, st.text);
    if all.len() == 0 {
        seq![response]
    } else {
        all
    }
}

/// `r` holds the pieces as text, in order.
pub open spec fn texts_match(r: Seq<MessageContent>, pieces: Seq<Seq<char>>) -> bool {
    &&& r.len() == pieces.len()
    &&& forall|k: int|
        0 <= k < r.len() ==> (#[trigger] r[k] matches MessageContent::Text(t) && t@ == pieces[k])
}

/// Adds the trimmed text as a piece when it is not blank.
fn flush_text(pieces: &mut Vec<MessageContent>, text: &str, shown: Ghost<Seq<Seq<char>>>)
    requires
        texts_match(old(pieces)@, shown@),
    ensures
        texts_match(final(pieces)@, flush(shown@, text@)),
{
    let t = trimmed(text);
    if t.as_str().unicode_len() > 0 {
        let ghost before = pieces@;
        pieces.push(MessageContent::Text(t));
        proof {
            assert forall|k: int| 0 <= k < before.len() implies pieces@[k] == before[k] by {}
        }
    }
}

impl ResponseParser {
    /// Splits an answer into text pieces: plain text, `Command:` pieces for command
    /// blocks, and lines that report file operations.
    pub fn parse_response(&self, response_text: &str) -> (r: Vec<MessageContent>)
        ensures
            texts_match(
                r@,
                pieces_of(
                    response_text@,
                    string_views(self.command_patterns@),
                    string_views(self.operation_patterns@),
                ),
            ),
    {
        let ghost cmds = string_views(self.command_patterns@);
        let ghost ops = string_views(self.operation_patterns@);
        let ls = lines(response_text);
        let ghost all = lines_of(response_text@);
        let mut pieces: Vec<MessageContent> = Vec::new();
        let mut text = String::new();
        let mut code = String::new();
        let mut in_code = false;
        let ghost mut shown: Seq<Seq<char>> = Seq::empty();
        let mut i: usize = 0;
        assert(all.subrange(0, 0) =~= Seq::<Seq<char>>::empty());
        while i < ls.len()
            invariant
                cmds == string_views(self.command_patterns@),
                ops == string_views(self.operation_patterns@),
                string_views(ls@) == all,
                i <= ls@.len(),
                texts_match(pieces@, shown),
                piece_scan(all.subrange(0, i as int), cmds, ops) == (PieceScan {
                    in_code,
                    text: text@,
                    code: code@,
                    pieces: shown,
                }),
            decreases ls@.len() - i,
        {
            proof {
                assert(all.subrange(0, i + 1).drop_last() =~= all.subrange(0, i as int));
                assert(all.subrange(0, i + 1).last() == ls@[i as int]@);
            }
            let line = ls[i].as_str();
            let t = trimmed(line);
            if self.opens_block(t.as_str()) {
                flush_text(&mut pieces, text.as_str(), Ghost(shown));
                proof {
                    shown = flush(shown, text@);
                }
                text = String::new();
                in_code = true;
                code = String::new();
            } else if in_code && str_eq_fence(t.as_str()) {
                let c = trimmed(code.as_str());
                if c.as_str().unicode_len() > 0 {
                    let mut piece = "Command:\n".to_owned();
                    piece.append(c.as_str());
                    let ghost before = pieces@;
                    pieces.push(MessageContent::Text(piece));
                    proof {
                        assert forall|k: int| 0 <= k < before.len() implies pieces@[k] == before[k] by {}
                        shown = shown.push("Command:\n"@ + trim(code@));
                    }
                }
                in_code = false;
                code = String::new();
            } else if in_code {
                code.append(line);
                code.append("\n");
            } else if any_contained(line, &self.operation_patterns) {
                flush_text(&mut pieces, text.as_str(), Ghost(shown));
                proof {
                    shown = flush(shown, text@);
                }
                text = String::new();
                let ghost before = pieces@;
                pieces.push(MessageContent::Text(line.to_owned()));
                proof {
                    assert forall|k: int| 0 <= k < before.len() implies pieces@[k] == before[k] by {}
                    shown = shown.push(line@);
                }
            } else {
                text.append(line);
                text.append("\n");
            }
            i += 1;
        }
        assert(all.subrange(0, ls@.len() as int) =~= all);
        flush_text(&mut pieces, text.as_str(), Ghost(shown));
        proof {
            shown = flush(shown, text@);
        }
        if pieces.len() == 0 {
            pieces.push(MessageContent::Text(response_text.to_owned()));
            proof {
                assert(texts_match(pieces@, seq![response_text@]));
            }
        }
        pieces
    }
}

/// Settings for showing messages in the chat.
pub struct MessageFormatter {
    pub max_line_length: usize,
    pub timestamp_format: String,
}

impl MessageFormatter {
    /// Lines of at most 80 characters, times shown as hours, minutes and seconds.
    pub fn new() -> (r: MessageFormatter)
        ensures
            r.max_line_length == 80,
            r.timestamp_format@ == "%H:%M:%S"@,
    {
        MessageFormatter { max_line_length: 80, timestamp_format: "%H:%M:%S".to_owned() }
    }

    /// A user's message, as text.
    pub fn format_user_message(&self, text: &str) -> (r: MessageContent)
        ensures
            r matches MessageContent::Text(t) && t@ == text@,
    {
        MessageContent::Text(text.to_owned())
    }
}

} // verus!
