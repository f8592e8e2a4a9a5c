//! The transcript that a verbose run prints: one block per message, warning
//! or error, a coloured `[role]` header over the text.
use vstd::prelude::*;

use owo_colors::{OwoColorize, Stream, Style};

use crate::text::{trim, trim_chars, trim_end, trim_end_chars};

verus! {

/// The colours the transcript uses.
pub enum Color {
    Blue,
    Cyan,
    Green,
    BrightBlack,
    Yellow,
    Magenta,
    Red,
}

/// A colour, or none, and boldness.
pub struct TextStyle {
    pub color: Option<Color>,
    pub bold: bool,
}

/// The stream a block is written to; colours follow what it supports.
#[derive(Clone, Copy)]
pub enum OutputStream {
    Stdout,
    Stderr,
}

/// The SGR code of a foreground colour.
pub open spec fn color_code(color: Color) -> Seq<char> {
    match color {
        Color::Red => "31"@,
        Color::Green => "32"@,
        Color::Yellow => "33"@,
        Color::Blue => "34"@,
        Color::Magenta => "35"@,
        Color::Cyan => "36"@,
        Color::BrightBlack => "90"@,
    }
}

/// `text` as a terminal shows it in `style`: the SGR codes, the text, and a
/// reset; a style with no colour and no boldness leaves the text as it is.
pub open spec fn styled(style: TextStyle, text: Seq<char>) -> Seq<char> {
    match style.color {
        None => if style.bold {
            "\u{1b}[1m"@ + text + "\u{1b}[0m"@
        } else {
            text
        },
        Some(color) => "\u{1b}["@ + color_code(color) + (if style.bold { ";1"@ } else { Seq::empty() }) + "m"@ + text
            + "\u{1b}[0m"@,
    }
}

/// `OwoColorize::if_supports_color` with the style's `OwoColorize::style`:
/// `text` in `style` where `stream` supports colours, else `text` alone.
/// Which of the two comes back depends on the terminal and the environment;
/// the contract says only that it is one of them.
#[verifier::external_body]
fn style_for_stream(text: &str, style: TextStyle, stream: OutputStream) -> (shown: String)
    ensures
        shown@ == text@ || shown@ == styled(style, text@),
{
    let plain = Style::new();
    let base = match style.color {
        None => plain,
        Some(Color::Blue) => plain.blue(),
        Some(Color::Cyan) => plain.cyan(),
        Some(Color::Green) => plain.green(),
        Some(Color::BrightBlack) => plain.bright_black(),
        Some(Color::Yellow) => plain.yellow(),
        Some(Color::Magenta) => plain.magenta(),
        Some(Color::Red) => plain.red(),
    };
    let style = if style.bold { base.bold() } else { base };
    let stream = match stream { OutputStream::Stdout => Stream::Stdout, OutputStream::Stderr => Stream::Stderr };
    text.if_supports_color(stream, |value| value.style(style)).to_string()
}

/// Who a transcript block speaks for.
pub enum Role {
    System,
    User,
    Assistant,
    AssistantReasoning,
    ToolCall,
    ToolResult,
    Info,
    Warning,
    Error,
}

pub open spec fn role_label_spec(role: Role) -> Seq<char> {
    match role {
        Role::System => "system"@,
        Role::User => "user"@,
        Role::Assistant => "assistant"@,
        Role::AssistantReasoning => "assistant:reasoning"@,
        Role::ToolCall => "tool:call"@,
        Role::ToolResult => "tool:result"@,
        Role::Info => "info"@,
        Role::Warning => "warning"@,
        Role::Error => "error"@,
    }
}

pub fn role_label(role: &Role) -> (label: &'static str)
    ensures
        label@ == role_label_spec(*role),
{
    match role {
        Role::System => {
            proof {
                reveal_strlit("system");
            }
            "system"
        },
        Role::User => {
            proof {
                reveal_strlit("user");
            }
            "user"
        },
        Role::Assistant => {
            proof {
                reveal_strlit("assistant");
            }
            "assistant"
        },
        Role::AssistantReasoning => {
            proof {
                reveal_strlit("assistant:reasoning");
            }
            "assistant:reasoning"
        },
        Role::ToolCall => {
            proof {
                reveal_strlit("tool:call");
            }
            "tool:call"
        },
        Role::ToolResult => {
            proof {
                reveal_strlit("tool:result");
            }
            "tool:result"
        },
        Role::Info => {
            proof {
                reveal_strlit("info");
            }
            "info"
        },
        Role::Warning => {
            proof {
                reveal_strlit("warning");
            }
            "warning"
        },
        Role::Error => {
            proof {
                reveal_strlit("error");
            }
            "error"
        },
    }
}

pub open spec fn role_color(role: Role) -> Color {
    match role {
        Role::System => Color::Blue,
        Role::User => Color::Cyan,
        Role::Assistant => Color::Green,
        Role::AssistantReasoning => Color::BrightBlack,
        Role::ToolCall => Color::Yellow,
        Role::ToolResult => Color::Magenta,
        Role::Info => Color::BrightBlack,
        Role::Warning => Color::Yellow,
        Role::Error => Color::Red,
    }
}

pub open spec fn header_style_spec(role: Role) -> TextStyle {
    TextStyle { color: Some(role_color(role)), bold: true }
}

pub open spec fn body_style_spec(role: Role) -> TextStyle {
    TextStyle {
        color: match role {
            Role::ToolResult => None,
            _ => Some(role_color(role)),
        },
        bold: false,
    }
}

/// The header of a block: the role's colour, bold.
pub fn header_style(role: &Role) -> (style: TextStyle)
    ensures
        style == header_style_spec(*role),
{
    let color = match role {
        Role::System => Color::Blue,
        Role::User => Color::Cyan,
        Role::Assistant => Color::Green,
        Role::AssistantReasoning => Color::BrightBlack,
        Role::ToolCall => Color::Yellow,
        Role::ToolResult => Color::Magenta,
        Role::Info => Color::BrightBlack,
        Role::Warning => Color::Yellow,
        Role::Error => Color::Red,
    };
    TextStyle { color: Some(color), bold: true }
}

/// The body of a block: the role's colour, except a tool result's, which is
/// left plain.
pub fn body_style(role: &Role) -> (style: TextStyle)
    ensures
        style == body_style_spec(*role),
{
    let color = match role {
        Role::System => Some(Color::Blue),
        Role::User => Some(Color::Cyan),
        Role::Assistant => Some(Color::Green),
        Role::AssistantReasoning => Some(Color::BrightBlack),
        Role::ToolCall => Some(Color::Yellow),
        Role::ToolResult => None,
        Role::Info => Some(Color::BrightBlack),
        Role::Warning => Some(Color::Yellow),
        Role::Error => Some(Color::Red),
    };
    TextStyle { color, bold: false }
}

/// Whether `shown` is `text`, styled or not.
pub open spec fn shown_as(shown: Seq<char>, style: TextStyle, text: Seq<char>) -> bool {
    shown == text || shown == styled(style, text)
}

/// A transcript block: a blank line, the `[role]` header, and the body.
pub open spec fn block(header: Seq<char>, body: Seq<char>) -> Seq<char> {
    "\n"@ + header + "\n"@ + body
}

/// Whether `rendered` is the block of `role` with body `body`, each part
/// styled or not.
pub open spec fn is_block(rendered: Seq<char>, role: Role, body: Seq<char>) -> bool {
    exists|header: Seq<char>, shown: Seq<char>|
        rendered == block(header, shown) && #[trigger] shown_as(header, header_style_spec(role), "["@ + role_label_spec(role) + "]"@)
            && #[trigger] shown_as(shown, body_style_spec(role), body)
}

/// The block of `role` whose body is `body` as it is.
pub fn render_block(role: Role, body: &str, stream: OutputStream) -> (rendered: String)
    ensures
        is_block(rendered@, role, body@),
{
    let mut label = "[".to_owned();
    label.append(role_label(&role));
    label.append("]");
    let header = style_for_stream(label.as_str(), header_style(&role), stream);
    let shown = style_for_stream(body, body_style(&role), stream);
    let mut rendered = "\n".to_owned();
    rendered.append(header.as_str());
    rendered.append("\n");
    rendered.append(shown.as_str());
    proof {
        reveal_strlit("[");
        reveal_strlit("]");
        reveal_strlit("\n");
        assert(rendered@ =~= block(header@, shown@));
        assert(label@ == "["@ + role_label_spec(role) + "]"@);
        assert(shown_as(header@, header_style_spec(role), "["@ + role_label_spec(role) + "]"@));
        assert(shown_as(shown@, body_style_spec(role), body@));
    }
    rendered
}

/// A message block: its text trimmed at both ends.
pub fn format_message(role: Role, text: &str, stream: OutputStream) -> (rendered: String)
    ensures
        is_block(rendered@, role, trim_chars(text@)),
{
    let body = trim(text);
    render_block(role, body.as_str(), stream)
}

/// An info block for the terminal's error stream: the message with its
/// trailing whitespace cut.
pub fn pretty_info(message: &str) -> (rendered: String)
    ensures
        is_block(rendered@, Role::Info, trim_end_chars(message@)),
{
    let body = trim_end(message);
    render_block(Role::Info, body.as_str(), OutputStream::Stderr)
}

/// A warning block for the terminal's error stream.
pub fn pretty_warning(message: &str) -> (rendered: String)
    ensures
        is_block(rendered@, Role::Warning, trim_end_chars(message@)),
{
    let body = trim_end(message);
    render_block(Role::Warning, body.as_str(), OutputStream::Stderr)
}

/// An error block for a failed step, from the error's detail.
pub fn pretty_runtime_error(detail: &str) -> (rendered: String)
    ensures
        is_block(rendered@, Role::Error, trim_end_chars(detail@)),
{
    let body = trim_end(detail);
    render_block(Role::Error, body.as_str(), OutputStream::Stderr)
}

/// Echoes the transcript of a run to the error stream, and remembers whether
/// it printed anything, so that a final newline can close it.
pub struct EchoModule {
    printed_any: bool,
}

impl EchoModule {
    pub fn new() -> (module: Self)
        ensures
            !module.printed_any(),
    {
        EchoModule { printed_any: false }
    }

    pub closed spec fn printed_any(&self) -> bool {
        self.printed_any
    }

    /// Notes that a block was printed.
    pub fn record_print(&mut self)
        ensures
            final(self).printed_any(),
    {
        self.printed_any = true;
    }

    /// Whether the transcript needs a closing newline: something was printed
    /// and the error stream is a terminal.
    pub fn needs_closing_newline(&self, stderr_is_terminal: bool) -> (needed: bool)
        ensures
            needed == (self.printed_any() && stderr_is_terminal),
    {
        self.printed_any && stderr_is_terminal
    }
}

} // verus!
