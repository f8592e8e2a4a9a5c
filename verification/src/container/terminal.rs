//! How the headless terminal sorts what a job prints: bytes for the screen,
//! and queries that the terminal itself must answer.
use vstd::prelude::*;

use crate::text::{append_bytes, char_utf8, decimal_chars, digit_char};

verus! {

pub const ROWS: u16 = 24;
pub const COLS: u16 = 80;
pub const SCROLLBACK_ROWS: usize = 1000;
pub const OUTPUT_MAX_BYTES: usize = 4194304;

/// The bytes of a string of ASCII characters.
pub open spec fn ascii_bytes(s: Seq<char>) -> Seq<u8> {
    s.map_values(|c: char| c as u8)
}

/// Appends the decimal digits of `n`, as ASCII bytes, to `out`.
pub fn push_decimal_bytes(out: &mut Vec<u8>, n: u64)
    ensures
        final(out)@ == old(out)@ + ascii_bytes(decimal_chars(n as nat)),
    decreases n,
{
    if n >= 10 {
        push_decimal_bytes(out, n / 10);
    }
    let d = (n % 10) as u8;
    out.push(48u8 + d);
    proof {
        assert(digit_char(d as nat) as u8 == 48 + d);
        if n >= 10 {
            assert(decimal_chars(n as nat) == decimal_chars((n / 10) as nat).push(digit_char((n % 10) as nat)));
        }
        assert(final(out)@ =~= old(out)@ + ascii_bytes(decimal_chars(n as nat)));
    }
}

/// A query that a program sends to its terminal and that the terminal answers.
pub enum TerminalQuery {
    DeviceStatus,
    CursorPosition { private: bool },
    PrimaryDeviceAttributes,
    SecondaryDeviceAttributes,
    TextAreaSize,
    WindowSize,
}

/// `ESC [`.
pub open spec fn csi() -> Seq<u8> {
    seq![0x1bu8, 0x5bu8]
}

/// The answer to a query, with the cursor at (`row`, `column`), both from 0.
pub open spec fn reply_spec(query: TerminalQuery, row: u16, column: u16) -> Seq<u8> {
    match query {
        TerminalQuery::DeviceStatus => csi() + seq![0x30u8, 0x6eu8],
        TerminalQuery::CursorPosition { private } => csi() + (if private { seq![0x3fu8] } else { Seq::empty() })
            + ascii_bytes(decimal_chars(row as nat + 1)) + seq![0x3bu8] + ascii_bytes(decimal_chars(column as nat + 1)) + seq![
            0x52u8,
        ],
        TerminalQuery::PrimaryDeviceAttributes => csi() + seq![0x3fu8, 0x31u8, 0x3bu8, 0x32u8, 0x63u8],
        TerminalQuery::SecondaryDeviceAttributes => csi() + seq![0x3eu8, 0x30u8, 0x3bu8, 0x30u8, 0x3bu8, 0x30u8, 0x63u8],
        TerminalQuery::TextAreaSize => csi() + seq![0x38u8, 0x3bu8] + ascii_bytes(decimal_chars(ROWS as nat)) + seq![0x3bu8]
            + ascii_bytes(decimal_chars(COLS as nat)) + seq![0x74u8],
        TerminalQuery::WindowSize => csi() + seq![0x34u8, 0x3bu8, 0x30u8, 0x3bu8, 0x30u8, 0x74u8],
    }
}

impl TerminalQuery {
    /// The answer to the query, with the cursor at (`row`, `column`).
    pub fn reply(&self, row: u16, column: u16) -> (answer: Vec<u8>)
        ensures
            answer@ == reply_spec(*self, row, column),
    {
        let mut answer: Vec<u8> = Vec::new();
        answer.push(0x1b);
        answer.push(0x5b);
        match self {
            TerminalQuery::DeviceStatus => {
                answer.push(0x30);
                answer.push(0x6e);
            },
            TerminalQuery::CursorPosition { private } => {
                if *private {
                    answer.push(0x3f);
                }
                push_decimal_bytes(&mut answer, row as u64 + 1);
                answer.push(0x3b);
                push_decimal_bytes(&mut answer, column as u64 + 1);
                answer.push(0x52);
            },
            TerminalQuery::PrimaryDeviceAttributes => {
                answer.push(0x3f);
                answer.push(0x31);
                answer.push(0x3b);
                answer.push(0x32);
                answer.push(0x63);
            },
            TerminalQuery::SecondaryDeviceAttributes => {
                answer.push(0x3e);
                answer.push(0x30);
                answer.push(0x3b);
                answer.push(0x30);
                answer.push(0x3b);
                answer.push(0x30);
                answer.push(0x63);
            },
            TerminalQuery::TextAreaSize => {
                answer.push(0x38);
                answer.push(0x3b);
                push_decimal_bytes(&mut answer, ROWS as u64);
                answer.push(0x3b);
                push_decimal_bytes(&mut answer, COLS as u64);
                answer.push(0x74);
            },
            TerminalQuery::WindowSize => {
                answer.push(0x34);
                answer.push(0x3b);
                answer.push(0x30);
                answer.push(0x3b);
                answer.push(0x30);
                answer.push(0x74);
            },
        }
        assert(answer@ =~= reply_spec(*self, row, column));
        answer
    }
}

/// The first value of the first parameter, or 0.
pub open spec fn first_param_spec(params: Seq<Vec<u16>>) -> u16 {
    if params.len() > 0 && params[0]@.len() > 0 {
        params[0]@[0]
    } else {
        0
    }
}

pub fn first_param(params: &Vec<Vec<u16>>) -> (first: u16)
    ensures
        first == first_param_spec(params@),
{
    if params.len() > 0 && params[0].len() > 0 {
        params[0][0]
    } else {
        0
    }
}

/// The query that a CSI sequence makes, if it is one the terminal answers.
pub open spec fn terminal_query_spec(params: Seq<Vec<u16>>, intermediates: Seq<u8>, action: char) -> Option<TerminalQuery> {
    let first = first_param_spec(params);
    if intermediates.len() == 0 && first == 5 && action == 'n' {
        Some(TerminalQuery::DeviceStatus)
    } else if intermediates.len() == 0 && first == 6 && action == 'n' {
        Some(TerminalQuery::CursorPosition { private: false })
    } else if intermediates == seq![0x3fu8] && first == 6 && action == 'n' {
        Some(TerminalQuery::CursorPosition { private: true })
    } else if intermediates.len() == 0 && first == 0 && action == 'c' {
        Some(TerminalQuery::PrimaryDeviceAttributes)
    } else if intermediates == seq![0x3eu8] && first == 0 && action == 'c' {
        Some(TerminalQuery::SecondaryDeviceAttributes)
    } else if intermediates.len() == 0 && first == 18 && action == 't' {
        Some(TerminalQuery::TextAreaSize)
    } else if intermediates.len() == 0 && first == 14 && action == 't' {
        Some(TerminalQuery::WindowSize)
    } else {
        None
    }
}

pub fn terminal_query(params: &Vec<Vec<u16>>, intermediates: &[u8], action: char) -> (query: Option<TerminalQuery>)
    ensures
        query == terminal_query_spec(params@, intermediates@, action),
{
    let first = first_param(params);
    let none = intermediates.len() == 0;
    let single = intermediates.len() == 1;
    proof {
        if single {
            if intermediates@[0] == 0x3f {
                assert(intermediates@ =~= seq![0x3fu8]);
            }
            if intermediates@[0] == 0x3e {
                assert(intermediates@ =~= seq![0x3eu8]);
            }
        } else {
            assert(intermediates@ != seq![0x3fu8]);
            assert(intermediates@ != seq![0x3eu8]);
        }
    }
    if none && first == 5 && action == 'n' {
        Some(TerminalQuery::DeviceStatus)
    } else if none && first == 6 && action == 'n' {
        Some(TerminalQuery::CursorPosition { private: false })
    } else if single && intermediates[0] == 0x3f && first == 6 && action == 'n' {
        Some(TerminalQuery::CursorPosition { private: true })
    } else if none && first == 0 && action == 'c' {
        Some(TerminalQuery::PrimaryDeviceAttributes)
    } else if single && intermediates[0] == 0x3e && first == 0 && action == 'c' {
        Some(TerminalQuery::SecondaryDeviceAttributes)
    } else if none && first == 18 && action == 't' {
        Some(TerminalQuery::TextAreaSize)
    } else if none && first == 14 && action == 't' {
        Some(TerminalQuery::WindowSize)
    } else {
        None
    }
}

/// Whether `byte` marks a private parameter sequence: `<`, `=`, `>` or `?`.
pub open spec fn is_private_marker(byte: u8) -> bool {
    byte == 0x3c || byte == 0x3d || byte == 0x3e || byte == 0x3f
}

/// Number of leading private markers of `intermediates`.
pub open spec fn private_len(intermediates: Seq<u8>) -> nat
    decreases intermediates.len(),
{
    if intermediates.len() > 0 && is_private_marker(intermediates[0]) {
        1 + private_len(intermediates.drop_first())
    } else {
        0
    }
}

/// One parameter: its values in decimal, separated by `:`.
pub open spec fn encoded_param(values: Seq<u16>) -> Seq<u8>
    decreases values.len(),
{
    if values.len() == 0 {
        Seq::empty()
    } else if values.len() == 1 {
        ascii_bytes(decimal_chars(values[0] as nat))
    } else {
        encoded_param(values.drop_last()) + seq![0x3au8] + ascii_bytes(decimal_chars(values.last() as nat))
    }
}

/// The parameters, separated by `;`.
pub open spec fn encoded_params(params: Seq<Vec<u16>>) -> Seq<u8>
    decreases params.len(),
{
    if params.len() == 0 {
        Seq::empty()
    } else if params.len() == 1 {
        encoded_param(params[0]@)
    } else {
        encoded_params(params.drop_last()) + seq![0x3bu8] + encoded_param(params.last()@)
    }
}

/// A control sequence written out again: `ESC`, the introducer, the private
/// markers, the parameters, the other intermediates, then the final character.
pub open spec fn encoded_sequence(introducer: u8, params: Seq<Vec<u16>>, intermediates: Seq<u8>, action: char) -> Seq<u8> {
    let p = private_len(intermediates) as int;
    seq![0x1bu8, introducer] + intermediates.take(p) + encoded_params(params) + intermediates.skip(p)
        + vstd::utf8::encode_scalar(action as u32)
}

fn count_private(intermediates: &[u8]) -> (count: usize)
    ensures
        count == private_len(intermediates@),
        count <= intermediates@.len(),
{
    let mut count: usize = 0;
    assert(intermediates@.skip(0) =~= intermediates@);
    while count < intermediates.len() && (intermediates[count] == 0x3c || intermediates[count] == 0x3d
        || intermediates[count] == 0x3e || intermediates[count] == 0x3f)
        invariant
            count <= intermediates@.len(),
            private_len(intermediates@) == count + private_len(intermediates@.skip(count as int)),
        decreases intermediates.len() - count,
    {
        assert(intermediates@.skip(count as int).drop_first() =~= intermediates@.skip(count + 1));
        count += 1;
    }
    proof {
        if count == intermediates@.len() {
            assert(intermediates@.skip(count as int).len() == 0);
        } else {
            assert(intermediates@.skip(count as int)[0] == intermediates@[count as int]);
        }
    }
    count
}

fn push_param(out: &mut Vec<u8>, values: &Vec<u16>)
    ensures
        final(out)@ == old(out)@ + encoded_param(values@),
{
    let mut i: usize = 0;
    while i < values.len()
        invariant
            i <= values@.len(),
            out@ == old(out)@ + encoded_param(values@.take(i as int)),
        decreases values.len() - i,
    {
        if i > 0 {
            out.push(0x3a);
        }
        push_decimal_bytes(out, values[i] as u64);
        proof {
            let next = values@.take(i + 1);
            assert(next.drop_last() =~= values@.take(i as int));
            if i == 0 {
                assert(values@.take(0) =~= Seq::<u16>::empty());
            }
        }
        i += 1;
    }
    assert(values@.take(i as int) =~= values@);
}

/// Writes a control sequence out again, as the terminal's screen reads it.
pub fn encode_sequence(introducer: u8, params: &Vec<Vec<u16>>, intermediates: &[u8], action: char) -> (sequence: Vec<u8>)
    ensures
        sequence@ == encoded_sequence(introducer, params@, intermediates@, action),
{
    let mut sequence: Vec<u8> = Vec::new();
    sequence.push(0x1b);
    sequence.push(introducer);
    let private = count_private(intermediates);
    let (marks, rest) = intermediates.split_at(private);
    append_bytes(&mut sequence, marks);
    let ghost head = sequence@;
    let mut i: usize = 0;
    while i < params.len()
        invariant
            i <= params@.len(),
            sequence@ == head + encoded_params(params@.take(i as int)),
        decreases params.len() - i,
    {
        if i > 0 {
            sequence.push(0x3b);
        }
        push_param(&mut sequence, &params[i]);
        proof {
            let next = params@.take(i + 1);
            assert(next.drop_last() =~= params@.take(i as int));
            if i == 0 {
                assert(params@.take(0) =~= Seq::<Vec<u16>>::empty());
            }
        }
        i += 1;
    }
    assert(params@.take(i as int) =~= params@);
    append_bytes(&mut sequence, rest);
    let action_bytes = char_utf8(action);
    append_bytes(&mut sequence, action_bytes.as_slice());
    assert(sequence@ =~= encoded_sequence(introducer, params@, intermediates@, action));
    sequence
}

/// Parameters of an operating system command, separated by `;`.
pub open spec fn joined_params(params: Seq<Vec<u8>>) -> Seq<u8>
    decreases params.len(),
{
    if params.len() == 0 {
        Seq::empty()
    } else if params.len() == 1 {
        params[0]@
    } else {
        joined_params(params.drop_last()) + seq![0x3bu8] + params.last()@
    }
}

/// What the terminal does with a piece of a job's output.
pub enum TerminalEvent {
    /// Bytes for the screen.
    Display(Vec<u8>),
    /// A query the terminal answers.
    Query(TerminalQuery),
}

/// The bytes of the events' display events, in order.
pub open spec fn display_stream(events: Seq<TerminalEvent>) -> Seq<u8>
    decreases events.len(),
{
    if events.len() == 0 {
        Seq::empty()
    } else {
        display_stream(events.drop_last()) + match events.last() {
            TerminalEvent::Display(bytes) => bytes@,
            TerminalEvent::Query(_) => Seq::empty(),
        }
    }
}

/// The queries among the events, in order.
pub open spec fn queries(events: Seq<TerminalEvent>) -> Seq<TerminalQuery>
    decreases events.len(),
{
    if events.len() == 0 {
        Seq::empty()
    } else {
        let rest = queries(events.drop_last());
        match events.last() {
            TerminalEvent::Display(_) => rest,
            TerminalEvent::Query(query) => rest.push(query),
        }
    }
}

/// No two display events are next to each other, and none is empty.
pub open spec fn displays_merged(events: Seq<TerminalEvent>) -> bool {
    &&& forall|i: int| 0 <= i < events.len() && #[trigger] events[i] is Display ==> events[i]->Display_0@.len() > 0
    &&& forall|i: int| 0 <= i < events.len() - 1 && #[trigger] events[i] is Display ==> !(events[i + 1] is Display)
}

/// Turns the callbacks of an escape-sequence parser into terminal events. A
/// device control string is gathered whole, then shown.
pub struct Dispatcher {
    pub events: Vec<TerminalEvent>,
    pub dcs: Option<Vec<u8>>,
}

impl Dispatcher {
    pub fn new() -> (dispatcher: Self)
        ensures
            dispatcher.events@.len() == 0,
            dispatcher.dcs is None,
    {
        Dispatcher { events: Vec::new(), dcs: None }
    }

    /// Shows `bytes`, merged into the last event when it is a display event.
    pub fn display(&mut self, bytes: &[u8])
        requires
            displays_merged(old(self).events@),
        ensures
            final(self).dcs == old(self).dcs,
            displays_merged(final(self).events@),
            display_stream(final(self).events@) == display_stream(old(self).events@) + bytes@,
            queries(final(self).events@) == queries(old(self).events@),
            bytes@.len() == 0 ==> final(self).events@ == old(self).events@,
            bytes@.len() > 0 && old(self).events@.len() > 0 && old(self).events@.last() is Display ==> final(self).events@.len()
                == old(self).events@.len(),
            bytes@.len() > 0 && !(old(self).events@.len() > 0 && old(self).events@.last() is Display) ==> final(self).events@.len()
                == old(self).events@.len() + 1,
    {
        let ghost before = self.events@;
        if bytes.len() == 0 {
            assert(bytes@ =~= Seq::<u8>::empty());
            assert(display_stream(before) + bytes@ =~= display_stream(before));
            return;
        }
        let n = self.events.len();
        let merge = n > 0 && match &self.events[n - 1] {
            TerminalEvent::Display(_) => true,
            TerminalEvent::Query(_) => false,
        };
        if merge {
            let last = self.events.pop().unwrap();
            let mut output = match last {
                TerminalEvent::Display(output) => output,
                TerminalEvent::Query(_) => Vec::new(),
            };
            let ghost old_output = output@;
            append_bytes(&mut output, bytes);
            self.events.push(TerminalEvent::Display(output));
            proof {
                let after = self.events@;
                assert(after.drop_last() =~= before.drop_last());
                assert(display_stream(before) == display_stream(before.drop_last()) + old_output);
                assert(display_stream(after) == display_stream(after.drop_last()) + output@);
                assert(display_stream(after) =~= display_stream(before) + bytes@);
                assert(queries(after) == queries(after.drop_last()));
                assert(queries(before) == queries(before.drop_last()));
                assert forall|i: int| 0 <= i < after.len() && #[trigger] after[i] is Display implies after[i]->Display_0@.len() > 0 by {
                    if i < after.len() - 1 {
                        assert(after[i] == before[i]);
                    }
                }
                assert forall|i: int| 0 <= i < after.len() - 1 && #[trigger] after[i] is Display implies !(after[i + 1] is Display) by {
                    assert(after[i] == before[i]);
                    if i + 1 < after.len() - 1 {
                        assert(after[i + 1] == before[i + 1]);
                    }
                }
            }
        } else {
            let mut output = Vec::new();
            append_bytes(&mut output, bytes);
            self.events.push(TerminalEvent::Display(output));
            proof {
                let after = self.events@;
                assert(after.drop_last() =~= before);
                assert(display_stream(after) =~= display_stream(before) + bytes@);
                assert forall|i: int| 0 <= i < after.len() && #[trigger] after[i] is Display implies after[i]->Display_0@.len() > 0 by {
                    if i < after.len() - 1 {
                        assert(after[i] == before[i]);
                    }
                }
                assert forall|i: int| 0 <= i < after.len() - 1 && #[trigger] after[i] is Display implies !(after[i + 1] is Display) by {
                    assert(after[i] == before[i]);
                    if i + 1 < after.len() - 1 {
                        assert(after[i + 1] == before[i + 1]);
                    }
                }
            }
        }
    }

    fn query(&mut self, query: TerminalQuery)
        requires
            displays_merged(old(self).events@),
        ensures
            final(self).dcs == old(self).dcs,
            final(self).events@ == old(self).events@.push(TerminalEvent::Query(query)),
            displays_merged(final(self).events@),
            display_stream(final(self).events@) == display_stream(old(self).events@),
            queries(final(self).events@) == queries(old(self).events@).push(query),
    {
        let ghost before = self.events@;
        self.events.push(TerminalEvent::Query(query));
        proof {
            let after = self.events@;
            assert(after.drop_last() =~= before);
            assert(display_stream(after) =~= display_stream(before));
            assert forall|i: int| 0 <= i < after.len() && #[trigger] after[i] is Display implies after[i]->Display_0@.len() > 0 by {
                assert(after[i] == before[i]);
            }
            assert forall|i: int| 0 <= i < after.len() - 1 && #[trigger] after[i] is Display implies !(after[i + 1] is Display) by {
                assert(after[i] == before[i]);
                if i + 1 < after.len() - 1 {
                    assert(after[i + 1] == before[i + 1]);
                }
            }
        }
    }

    /// A printable character: its UTF-8 bytes are shown.
    pub fn print(&mut self, c: char)
        requires
            displays_merged(old(self).events@),
        ensures
            final(self).dcs == old(self).dcs,
            displays_merged(final(self).events@),
            display_stream(final(self).events@) == display_stream(old(self).events@) + vstd::utf8::encode_scalar(c as u32),
            queries(final(self).events@) == queries(old(self).events@),
    {
        let bytes = char_utf8(c);
        self.display(bytes.as_slice());
    }

    /// A C0 control byte: gathered into an open device control string, else shown.
    pub fn execute(&mut self, byte: u8)
        requires
            displays_merged(old(self).events@),
        ensures
            displays_merged(final(self).events@),
            queries(final(self).events@) == queries(old(self).events@),
            match old(self).dcs {
                Some(dcs) => (final(self).dcs matches Some(d) && d@ == dcs@.push(byte)) && final(self).events@ == old(self).events@,
                None => final(self).dcs is None && display_stream(final(self).events@) == display_stream(old(self).events@).push(byte),
            },
    {
        match &mut self.dcs {
            Some(dcs) => {
                dcs.push(byte);
            },
            None => {
                let bytes = vec![byte];
                self.display(bytes.as_slice());
                assert(bytes@ =~= seq![byte]);
            },
        }
    }

    /// A CSI sequence: a query the terminal answers, or bytes to show again.
    pub fn csi_dispatch(&mut self, params: &Vec<Vec<u16>>, intermediates: &[u8], action: char)
        requires
            displays_merged(old(self).events@),
        ensures
            final(self).dcs == old(self).dcs,
            displays_merged(final(self).events@),
            match terminal_query_spec(params@, intermediates@, action) {
                Some(query) => final(self).events@ == old(self).events@.push(TerminalEvent::Query(query)),
                None => display_stream(final(self).events@) == display_stream(old(self).events@) + encoded_sequence(
                    0x5b,
                    params@,
                    intermediates@,
                    action,
                ) && queries(final(self).events@) == queries(old(self).events@),
            },
    {
        match terminal_query(params, intermediates, action) {
            Some(query) => self.query(query),
            None => {
                let sequence = encode_sequence(0x5b, params, intermediates, action);
                self.display(sequence.as_slice());
            },
        }
    }

    /// An escape sequence: shown again as it came.
    pub fn esc_dispatch(&mut self, intermediates: &[u8], byte: u8)
        requires
            displays_merged(old(self).events@),
        ensures
            final(self).dcs == old(self).dcs,
            displays_merged(final(self).events@),
            display_stream(final(self).events@) == display_stream(old(self).events@) + seq![0x1bu8] + intermediates@ + seq![byte],
            queries(final(self).events@) == queries(old(self).events@),
    {
        let mut sequence: Vec<u8> = Vec::new();
        sequence.push(0x1b);
        append_bytes(&mut sequence, intermediates);
        sequence.push(byte);
        self.display(sequence.as_slice());
        assert(sequence@ =~= seq![0x1bu8] + intermediates@ + seq![byte]);
    }

    /// An operating system command: shown again, its parameters separated by
    /// `;`, ended by BEL or by `ESC \\` as it came.
    pub fn osc_dispatch(&mut self, params: &Vec<Vec<u8>>, bell_terminated: bool)
        requires
            displays_merged(old(self).events@),
        ensures
            final(self).dcs == old(self).dcs,
            displays_merged(final(self).events@),
            display_stream(final(self).events@) == display_stream(old(self).events@) + seq![0x1bu8, 0x5du8] + joined_params(
                params@,
            ) + if bell_terminated {
                seq![0x07u8]
            } else {
                seq![0x1bu8, 0x5cu8]
            },
            queries(final(self).events@) == queries(old(self).events@),
    {
        let mut sequence: Vec<u8> = Vec::new();
        sequence.push(0x1b);
        sequence.push(0x5d);
        let ghost head = sequence@;
        let mut i: usize = 0;
        while i < params.len()
            invariant
                i <= params@.len(),
                sequence@ == head + joined_params(params@.take(i as int)),
            decreases params.len() - i,
        {
            if i > 0 {
                sequence.push(0x3b);
            }
            append_bytes(&mut sequence, params[i].as_slice());
            proof {
                let next = params@.take(i + 1);
                assert(next.drop_last() =~= params@.take(i as int));
                if i == 0 {
                    assert(params@.take(0) =~= Seq::<Vec<u8>>::empty());
                }
            }
            i += 1;
        }
        assert(params@.take(i as int) =~= params@);
        if bell_terminated {
            sequence.push(0x07);
        } else {
            sequence.push(0x1b);
            sequence.push(0x5c);
        }
        self.display(sequence.as_slice());
        assert(sequence@ =~= seq![0x1bu8, 0x5du8] + joined_params(params@) + if bell_terminated {
            seq![0x07u8]
        } else {
            seq![0x1bu8, 0x5cu8]
        });
    }

    /// The start of a device control string: gathered from here on.
    pub fn hook(&mut self, params: &Vec<Vec<u16>>, intermediates: &[u8], action: char)
        ensures
            final(self).events@ == old(self).events@,
            final(self).dcs matches Some(d) && d@ == encoded_sequence(0x50, params@, intermediates@, action),
    {
        self.dcs = Some(encode_sequence(0x50, params, intermediates, action));
    }

    /// A byte of a device control string.
    pub fn put(&mut self, byte: u8)
        ensures
            final(self).events@ == old(self).events@,
            match old(self).dcs {
                Some(dcs) => final(self).dcs matches Some(d) && d@ == dcs@.push(byte),
                None => final(self).dcs is None,
            },
    {
        match &mut self.dcs {
            Some(dcs) => dcs.push(byte),
            None => {},
        }
    }

    /// The end of a device control string: it is shown, ended by `ESC \\`.
    pub fn unhook(&mut self)
        requires
            displays_merged(old(self).events@),
        ensures
            final(self).dcs is None,
            displays_merged(final(self).events@),
            queries(final(self).events@) == queries(old(self).events@),
            match old(self).dcs {
                Some(dcs) => display_stream(final(self).events@) == display_stream(old(self).events@) + dcs@ + seq![0x1bu8, 0x5cu8],
                None => final(self).events@ == old(self).events@,
            },
    {
        let taken = self.dcs.take();
        match taken {
            Some(mut sequence) => {
                let ghost gathered = sequence@;
                sequence.push(0x1b);
                sequence.push(0x5c);
                self.display(sequence.as_slice());
                assert(sequence@ =~= gathered + seq![0x1bu8, 0x5cu8]);
            },
            None => {},
        }
    }

    /// The events gathered so far, in order; none are left.
    pub fn take_events(&mut self) -> (events: Vec<TerminalEvent>)
        ensures
            events@ == old(self).events@,
            final(self).events@.len() == 0,
            final(self).dcs == old(self).dcs,
    {
        let mut events = Vec::new();
        std::mem::swap(&mut events, &mut self.events);
        events
    }
}

} // verus!
