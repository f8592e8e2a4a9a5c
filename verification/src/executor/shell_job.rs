//! The persistent shell job tools: their names, how input reaches a running
//! program, and what a tool call answers about a job.
use vstd::prelude::*;

use serde_json::Value;

use crate::container::job::{JobAccessResult, JobHandle, JobInfo, JobStatus};
use crate::executor::json::{
    json_array, json_bool, json_contents, json_integer, json_null, json_object, json_string, json_unsigned, model_child,
    JsonModel, PathStep,
};
use crate::executor::tool_call::{PhiToolDefinition, ToolCallRequest, ToolCallResponse};
use crate::text::{decimal_chars, integer_chars};

verus! {

/// Milliseconds a new job waits for its output to settle.
pub const EXEC_WAIT_MS: u64 = 60000;
/// Milliseconds an idle job lives.
pub const JOB_EXPIRATION_MS: u64 = 600000;
/// Milliseconds an interaction waits when the call does not say.
pub const DEFAULT_INTERACT_WAIT_MS: u64 = 60000;
/// Milliseconds between typing input and pressing Enter.
pub const SUBMIT_KEY_DELAY_MS: u64 = 20;

/// Starts a shell command as a job.
pub struct ShellJobExecTool;

/// Talks to a running job.
pub struct ShellJobInteractTool;

/// Closes a job.
pub struct ShellJobCloseTool;

impl ShellJobExecTool {
    /// `powershell_job` on Windows, `bash_job` elsewhere.
    pub fn name(windows: bool) -> (name: &'static str)
        ensures
            name@ == if windows { "powershell_job"@ } else { "bash_job"@ },
    {
        proof {
            reveal_strlit("powershell_job");
            reveal_strlit("bash_job");
        }
        if windows {
            "powershell_job"
        } else {
            "bash_job"
        }
    }

    pub fn description(windows: bool) -> (description: &'static str)
        ensures
            description@ == if windows { "Run a PowerShell command job."@ } else { "Run a bash command job."@ },
    {
        proof {
            reveal_strlit("Run a PowerShell command job.");
            reveal_strlit("Run a bash command job.");
        }
        if windows {
            "Run a PowerShell command job."
        } else {
            "Run a bash command job."
        }
    }
}

impl ShellJobInteractTool {
    pub fn name() -> (name: &'static str)
        ensures
            name@ == "job_interact"@,
    {
        proof {
            reveal_strlit("job_interact");
        }
        "job_interact"
    }

    pub fn description() -> (description: &'static str)
        ensures
            description@ == INTERACT_DESCRIPTION@,
    {
        INTERACT_DESCRIPTION
    }
}

/// What the model is told of the interaction tool.
pub const INTERACT_DESCRIPTION: &'static str = "Interact with a program that is already running under a local job handle and read its newly available output. Omit input to only read output. Provide an empty string to press Enter once. Non-empty input is submitted by appending one carriage return (CR), equivalent to pressing Enter once, when it has no trailing newline.";

impl ShellJobCloseTool {
    pub fn name() -> (name: &'static str)
        ensures
            name@ == "job_close"@,
    {
        proof {
            reveal_strlit("job_close");
        }
        "job_close"
    }

    pub fn description() -> (description: &'static str)
        ensures
            description@ == "Read current output, stop a local job, and release its resources."@,
    {
        proof {
            reveal_strlit("Read current output, stop a local job, and release its resources.");
        }
        "Read current output, stop a local job, and release its resources."
    }
}

/// The names of the default tools, in registration order.
pub fn shell_job_tool_names(windows: bool) -> (names: Vec<&'static str>)
    ensures
        names@.len() == 3,
        names@[0]@ == if windows { "powershell_job"@ } else { "bash_job"@ },
        names@[1]@ == "job_interact"@,
        names@[2]@ == "job_close"@,
{
    let mut names = Vec::new();
    names.push(ShellJobExecTool::name(windows));
    names.push(ShellJobInteractTool::name());
    names.push(ShellJobCloseTool::name());
    names
}

/// How input reaches a running program.
pub enum InteractiveInput {
    /// Written as it is, then the output is read.
    Direct(String),
    /// Typed, then Enter is pressed, then the output is read.
    Submit(String),
}

/// Windows line ends: each `\r\n`, and each other `\n`, becomes `\r`.
pub open spec fn carriage_returns(s: Seq<char>) -> Seq<char>
    decreases s.len(),
{
    if s.len() == 0 {
        Seq::empty()
    } else if s[0] == '\r' && s.len() > 1 && s[1] == '\n' {
        seq!['\r'] + carriage_returns(s.skip(2))
    } else if s[0] == '\n' {
        seq!['\r'] + carriage_returns(s.skip(1))
    } else {
        seq![s[0]] + carriage_returns(s.skip(1))
    }
}

fn to_carriage_returns(text: &str) -> (converted: String)
    ensures
        converted@ == carriage_returns(text@),
{
    let chars = crate::text::chars_of_str(text);
    let mut out = String::new();
    let mut i: usize = 0;
    assert(chars@.skip(0) =~= chars@);
    assert(out@ + carriage_returns(chars@) =~= carriage_returns(chars@));
    while i < chars.len()
        invariant
            i <= chars@.len(),
            chars@ == text@,
            out@ + carriage_returns(chars@.skip(i as int)) == carriage_returns(chars@),
        decreases chars.len() - i,
    {
        let c = chars[i];
        let ghost rest = chars@.skip(i as int);
        let ghost before = out@;
        proof {
            assert(rest[0] == c);
        }
        if c == '\r' && i + 1 < chars.len() && chars[i + 1] == '\n' {
            crate::text::push_char(&mut out, '\r');
            proof {
                assert(rest[1] == '\n');
                assert(carriage_returns(rest) == seq!['\r'] + carriage_returns(rest.skip(2)));
                assert(rest.skip(2) =~= chars@.skip(i + 2));
                assert(out@ + carriage_returns(chars@.skip(i + 2)) =~= before + carriage_returns(rest));
            }
            i += 2;
        } else {
            let shown = if c == '\n' { '\r' } else { c };
            crate::text::push_char(&mut out, shown);
            proof {
                assert(carriage_returns(rest) == seq![shown] + carriage_returns(rest.skip(1)));
                assert(rest.skip(1) =~= chars@.skip(i + 1));
                assert(out@ + carriage_returns(chars@.skip(i + 1)) =~= before + carriage_returns(rest));
            }
            i += 1;
        }
    }
    assert(chars@.skip(i as int) =~= Seq::<char>::empty());
    assert(out@ =~= out@ + carriage_returns(Seq::<char>::empty()));
    out
}

/// Whether `s` ends with a carriage return or a line feed.
pub open spec fn ends_with_line_end(s: Seq<char>) -> bool {
    s.len() > 0 && (s.last() == '\r' || s.last() == '\n')
}

pub open spec fn interactive_input_spec(input: Option<Seq<char>>, windows: bool) -> (bool, Seq<char>) {
    match input {
        None => (true, Seq::empty()),
        Some(text) => if text.len() == 0 {
            (true, seq!['\r'])
        } else {
            let converted = if windows { carriage_returns(text) } else { text };
            (ends_with_line_end(converted), converted)
        },
    }
}

/// How `input` reaches the program: none only reads the output; an empty
/// string presses Enter; input that ends a line is written as it is; other
/// input is typed and then submitted with Enter. On Windows, line feeds become
/// carriage returns first.
pub fn interactive_input(input: Option<String>, windows: bool) -> (how: InteractiveInput)
    ensures
        match how {
            InteractiveInput::Direct(data) => interactive_input_spec(
                match input {
                    Some(t) => Some(t@),
                    None => None,
                },
                windows,
            ) == (true, data@),
            InteractiveInput::Submit(data) => interactive_input_spec(
                match input {
                    Some(t) => Some(t@),
                    None => None,
                },
                windows,
            ) == (false, data@),
        },
{
    let input = match input {
        None => return InteractiveInput::Direct(String::new()),
        Some(input) => input,
    };
    if input.as_str().is_empty() {
        let mut enter = String::new();
        crate::text::push_char(&mut enter, '\r');
        assert(enter@ =~= seq!['\r']);
        return InteractiveInput::Direct(enter);
    }
    let converted = if windows { to_carriage_returns(input.as_str()) } else { input };
    let chars = crate::text::chars_of_str(converted.as_str());
    let n = chars.len();
    if n > 0 && (chars[n - 1] == '\r' || chars[n - 1] == '\n') {
        InteractiveInput::Direct(converted)
    } else {
        InteractiveInput::Submit(converted)
    }
}

/// The text of a failed tool call whose arguments did not parse.
pub fn invalid_arguments_detail(name: &str, error: &str) -> (detail: String)
    ensures
        detail@ == "invalid "@ + name@ + " tool arguments: "@ + error@,
{
    let mut detail = "invalid ".to_owned();
    detail.append(name);
    detail.append(" tool arguments: ");
    detail.append(error);
    detail
}

/// What the answer to an interaction must be: the job's terminal.
pub fn interaction_info(result: JobAccessResult) -> (info: Result<JobInfo, String>)
    ensures
        match result {
            JobAccessResult::Interacted(i) => info == Ok::<JobInfo, String>(i),
            JobAccessResult::Written(_) => info matches Err(message) && message@
                == "job access returned a write acknowledgment for interact request"@,
        },
{
    match result {
        JobAccessResult::Interacted(info) => Ok(info),
        JobAccessResult::Written(_) => Err("job access returned a write acknowledgment for interact request".to_owned()),
    }
}

/// What the answer to typed input must be: an acknowledgment.
pub fn written_ack(result: JobAccessResult) -> (ack: Result<(), String>)
    ensures
        match result {
            JobAccessResult::Written(_) => ack is Ok,
            JobAccessResult::Interacted(_) => ack matches Err(message) && message@
                == "job access returned a terminal snapshot for write request"@,
        },
{
    match result {
        JobAccessResult::Written(_) => Ok(()),
        JobAccessResult::Interacted(_) => Err("job access returned a terminal snapshot for write request".to_owned()),
    }
}

/// What a shell job tool answers about a job.
pub struct JobReport {
    pub status: &'static str,
    pub exit_code: Option<i8>,
    pub output: String,
    pub truncated: bool,
    /// The handle, while the job runs.
    pub handle: Option<String>,
    pub waited_ms: u64,
}

pub open spec fn status_name(status: JobStatus) -> Seq<char> {
    match status {
        JobStatus::Running => "running"@,
        JobStatus::Exited(_) => "exited"@,
        JobStatus::NoExist => "not_found"@,
    }
}

/// The report of a job: its status by name, its exit code once it exited,
/// its output, and its handle only while it runs. The job's status is not the
/// tool call's success: the call succeeds whatever the job did.
pub fn job_report(info: JobInfo, handle: Option<JobHandle>) -> (report: JobReport)
    ensures
        report.status@ == status_name(info.status),
        report.exit_code == match info.status {
            JobStatus::Exited(code) => Some(code),
            _ => None::<i8>,
        },
        report.output == info.output,
        report.truncated == info.truncated,
        report.waited_ms == info.waited_ms,
        report.handle == match (info.status, handle) {
            (JobStatus::Running, Some(h)) => Some(h.0),
            _ => None::<String>,
        },
{
    let (status, output, truncated, waited_ms) = info.into_parts();
    proof {
        reveal_strlit("running");
        reveal_strlit("exited");
        reveal_strlit("not_found");
    }
    let (name, exit_code, running): (&'static str, Option<i8>, bool) = match status {
        JobStatus::Running => ("running", None, true),
        JobStatus::Exited(code) => ("exited", Some(code), false),
        JobStatus::NoExist => ("not_found", None, false),
    };
    let handle = if running {
        match handle {
            Some(handle) => Some(handle.0),
            None => None,
        }
    } else {
        None
    };
    JobReport { status: name, exit_code, output, truncated, handle, waited_ms }
}

/// `m` is the JSON report of a job with these fields: an object of six
/// entries, the exit code and the handle null where there is none.
pub open spec fn report_fields(
    m: JsonModel,
    status: Seq<char>,
    exit_code: Option<i8>,
    output: Seq<char>,
    truncated: bool,
    handle: Option<Seq<char>>,
    waited_ms: u64,
) -> bool {
    &&& m is Object
    &&& m->Object_0.len() == 6
    &&& model_child(m, PathStep::Key("status"@)) == Some(JsonModel::Str(status))
    &&& model_child(m, PathStep::Key("exit_code"@)) == Some(
        match exit_code {
            Some(code) => JsonModel::Number(integer_chars(code as int)),
            None => JsonModel::Null,
        },
    )
    &&& model_child(m, PathStep::Key("output"@)) == Some(JsonModel::Str(output))
    &&& model_child(m, PathStep::Key("truncated"@)) == Some(JsonModel::Bool(truncated))
    &&& model_child(m, PathStep::Key("handle"@)) == Some(
        match handle {
            Some(handle) => JsonModel::Str(handle),
            None => JsonModel::Null,
        },
    )
    &&& model_child(m, PathStep::Key("waited_ms"@)) == Some(JsonModel::Number(decimal_chars(waited_ms as nat)))
}

/// The JSON answer of a shell job tool: the job's `status`, its `exit_code`
/// (null unless it exited), its `output`, whether the output was
/// `truncated`, its `handle` (null unless it runs) and the `waited_ms`.
pub fn job_report_value(report: JobReport) -> (value: Value)
    ensures
        report_fields(
            json_contents(value),
            report.status@,
            report.exit_code,
            report.output@,
            report.truncated,
            match report.handle {
                Some(handle) => Some(handle@),
                None => None,
            },
            report.waited_ms,
        ),
{
    let JobReport { status, exit_code, output, truncated, handle, waited_ms } = report;
    let exit_code = match exit_code {
        Some(code) => json_integer(code as i64),
        None => json_null(),
    };
    let handle = match handle {
        Some(handle) => json_string(handle),
        None => json_null(),
    };
    let mut entries: Vec<(String, Value)> = Vec::new();
    entries.push(("status".to_owned(), json_string(status.to_owned())));
    entries.push(("exit_code".to_owned(), exit_code));
    entries.push(("output".to_owned(), json_string(output)));
    entries.push(("truncated".to_owned(), json_bool(truncated)));
    entries.push(("handle".to_owned(), handle));
    entries.push(("waited_ms".to_owned(), json_unsigned(waited_ms)));
    proof {
        reveal_strlit("status");
        reveal_strlit("exit_code");
        reveal_strlit("output");
        reveal_strlit("truncated");
        reveal_strlit("handle");
        reveal_strlit("waited_ms");
        assert forall|i: int, j: int| 0 <= i < j < entries@.len() implies (#[trigger] entries@[i]).0@
            != (#[trigger] entries@[j]).0@ by {
            assert(entries@[i].0@[0] != entries@[j].0@[0] || entries@[i].0@.len() != entries@[j].0@.len());
        }
    }
    let value = json_object(entries);
    proof {
        assert(entries@[0].0@ == "status"@);
        assert(entries@[1].0@ == "exit_code"@);
        assert(entries@[2].0@ == "output"@);
        assert(entries@[3].0@ == "truncated"@);
        assert(entries@[4].0@ == "handle"@);
        assert(entries@[5].0@ == "waited_ms"@);
    }
    value
}

/// The response of a shell job tool to `request`: the report of the job as
/// its output.
pub fn response(request: &ToolCallRequest, name: &str, info: JobInfo, handle: Option<JobHandle>) -> (answer: ToolCallResponse)
    ensures
        answer.id == request.id,
        answer.call_id == request.call_id,
        answer.name@ == name@,
        report_fields(
            json_contents(answer.output.0),
            status_name(info.status),
            match info.status {
                JobStatus::Exited(code) => Some(code),
                _ => None,
            },
            info.output@,
            info.truncated,
            match (info.status, handle) {
                (JobStatus::Running, Some(h)) => Some(h.0@),
                _ => None,
            },
            info.waited_ms,
        ),
{
    ToolCallResponse::new(request, name.to_owned(), job_report_value(job_report(info, handle)))
}

/// `m` is a schema property of type `kind` with a description.
pub open spec fn described_property(m: JsonModel, kind: Seq<char>, description: Seq<char>) -> bool {
    &&& m is Object
    &&& m->Object_0.len() == 2
    &&& model_child(m, PathStep::Key("type"@)) == Some(JsonModel::Str(kind))
    &&& model_child(m, PathStep::Key("description"@)) == Some(JsonModel::Str(description))
}

/// `m` is the schema of an object with these properties and required keys,
/// and no other keys.
pub open spec fn closed_object_schema(m: JsonModel, properties: JsonModel, required: Seq<Seq<char>>) -> bool {
    &&& m is Object
    &&& m->Object_0.len() == 4
    &&& model_child(m, PathStep::Key("type"@)) == Some(JsonModel::Str("object"@))
    &&& model_child(m, PathStep::Key("properties"@)) == Some(properties)
    &&& model_child(m, PathStep::Key("required"@)) == Some(
        JsonModel::Array(required.map_values(|key: Seq<char>| JsonModel::Str(key))),
    )
    &&& model_child(m, PathStep::Key("additionalProperties"@)) == Some(JsonModel::Bool(false))
}

fn described_property_value(kind: &str, description: &str) -> (value: Value)
    ensures
        described_property(json_contents(value), kind@, description@),
{
    let mut entries: Vec<(String, Value)> = Vec::new();
    entries.push(("type".to_owned(), json_string(kind.to_owned())));
    entries.push(("description".to_owned(), json_string(description.to_owned())));
    proof {
        reveal_strlit("type");
        reveal_strlit("description");
        assert(entries@[0].0@[0] != entries@[1].0@[0]);
    }
    let value = json_object(entries);
    proof {
        assert(entries@[0].0@ == "type"@);
        assert(entries@[1].0@ == "description"@);
    }
    value
}

fn closed_object_schema_value(properties: Value, required: &str) -> (value: Value)
    ensures
        closed_object_schema(json_contents(value), json_contents(properties), seq![required@]),
{
    let ghost props = json_contents(properties);
    let mut names: Vec<Value> = Vec::new();
    names.push(json_string(required.to_owned()));
    let required_value = json_array(names);
    let mut entries: Vec<(String, Value)> = Vec::new();
    entries.push(("type".to_owned(), json_string("object".to_owned())));
    entries.push(("properties".to_owned(), properties));
    entries.push(("required".to_owned(), required_value));
    entries.push(("additionalProperties".to_owned(), json_bool(false)));
    proof {
        reveal_strlit("type");
        reveal_strlit("properties");
        reveal_strlit("required");
        reveal_strlit("additionalProperties");
        assert forall|i: int, j: int| 0 <= i < j < entries@.len() implies (#[trigger] entries@[i]).0@
            != (#[trigger] entries@[j]).0@ by {
            assert(entries@[i].0@[0] != entries@[j].0@[0] || entries@[i].0@.len() != entries@[j].0@.len());
        }
        assert(names@.map_values(|item: Value| json_contents(item)) =~= seq![required@].map_values(
            |key: Seq<char>| JsonModel::Str(key),
        ));
    }
    let value = json_object(entries);
    proof {
        assert(entries@[0].0@ == "type"@);
        assert(entries@[1].0@ == "properties"@);
        assert(entries@[2].0@ == "required"@);
        assert(entries@[3].0@ == "additionalProperties"@);
    }
    value
}

/// What the model is told of the shell command of a new job.
pub const CMD_DESCRIPTION: &'static str = "Shell command to execute";

/// What the model is told of the handle it interacts with.
pub const INTERACT_HANDLE_DESCRIPTION: &'static str = "Handle of an already-running program returned by the shell job tool";

/// What the model is told of the input it sends.
pub const INTERACT_INPUT_DESCRIPTION: &'static str = "Optional input for the running program. Omit it to only read newly available output. Provide an empty string to press Enter once. Non-empty input without a trailing CR or LF is automatically followed by one CR, equivalent to pressing Enter once";

/// What the model is told of the time an interaction waits.
pub const INTERACT_WAIT_DESCRIPTION: &'static str = "Maximum time to wait, in milliseconds, for the job to exit or for terminal output activity to settle. Output activity is used as a heuristic that meaningful new output is ready, so the call returns after the activity is followed by a quiet period. With no output activity, it waits for the full duration";

/// What the model is told of the handle it closes.
pub const CLOSE_HANDLE_DESCRIPTION: &'static str = "Job handle returned by the shell job tool";

/// `m` is an object that holds exactly the one property `name`.
pub open spec fn single_property(m: JsonModel, name: Seq<char>) -> bool {
    &&& m is Object
    &&& m->Object_0.len() == 1
    &&& model_child(m, PathStep::Key(name)) is Some
}

fn single_property_value(name: &str, property: Value) -> (value: Value)
    ensures
        single_property(json_contents(value), name@),
        model_child(json_contents(value), PathStep::Key(name@)) == Some(json_contents(property)),
{
    let mut entries: Vec<(String, Value)> = Vec::new();
    entries.push((name.to_owned(), property));
    let value = json_object(entries);
    proof {
        assert(entries@[0].0@ == name@);
    }
    value
}

impl ShellJobExecTool {
    /// The arguments of a new job: the shell command `cmd`, and nothing else.
    pub fn parameters() -> (schema: Value)
        ensures
            closed_object_schema(
                json_contents(schema),
                model_child(json_contents(schema), PathStep::Key("properties"@))->Some_0,
                seq!["cmd"@],
            ),
            single_property(model_child(json_contents(schema), PathStep::Key("properties"@))->Some_0, "cmd"@),
            described_property(
                model_child(
                    model_child(json_contents(schema), PathStep::Key("properties"@))->Some_0,
                    PathStep::Key("cmd"@),
                )->Some_0,
                "string"@,
                CMD_DESCRIPTION@,
            ),
    {
        let properties = single_property_value("cmd", described_property_value("string", CMD_DESCRIPTION));
        closed_object_schema_value(properties, "cmd")
    }
}

impl ShellJobCloseTool {
    /// The arguments of a close: the job `handle`, and nothing else.
    pub fn parameters() -> (schema: Value)
        ensures
            closed_object_schema(
                json_contents(schema),
                model_child(json_contents(schema), PathStep::Key("properties"@))->Some_0,
                seq!["handle"@],
            ),
            single_property(model_child(json_contents(schema), PathStep::Key("properties"@))->Some_0, "handle"@),
            described_property(
                model_child(
                    model_child(json_contents(schema), PathStep::Key("properties"@))->Some_0,
                    PathStep::Key("handle"@),
                )->Some_0,
                "string"@,
                CLOSE_HANDLE_DESCRIPTION@,
            ),
    {
        let properties = single_property_value("handle", described_property_value("string", CLOSE_HANDLE_DESCRIPTION));
        closed_object_schema_value(properties, "handle")
    }
}

/// `m` describes the wait of an interaction: a non-negative integer of
/// milliseconds, by default `DEFAULT_INTERACT_WAIT_MS`.
pub open spec fn wait_property(m: JsonModel) -> bool {
    &&& m is Object
    &&& m->Object_0.len() == 4
    &&& model_child(m, PathStep::Key("type"@)) == Some(JsonModel::Str("integer"@))
    &&& model_child(m, PathStep::Key("minimum"@)) == Some(JsonModel::Number(decimal_chars(0)))
    &&& model_child(m, PathStep::Key("default"@)) == Some(JsonModel::Number(decimal_chars(DEFAULT_INTERACT_WAIT_MS as nat)))
    &&& model_child(m, PathStep::Key("description"@)) == Some(JsonModel::Str(INTERACT_WAIT_DESCRIPTION@))
}

fn wait_property_value() -> (value: Value)
    ensures
        wait_property(json_contents(value)),
{
    let mut entries: Vec<(String, Value)> = Vec::new();
    entries.push(("type".to_owned(), json_string("integer".to_owned())));
    entries.push(("minimum".to_owned(), json_unsigned(0)));
    entries.push(("default".to_owned(), json_unsigned(DEFAULT_INTERACT_WAIT_MS)));
    entries.push(("description".to_owned(), json_string(INTERACT_WAIT_DESCRIPTION.to_owned())));
    proof {
        reveal_strlit("type");
        reveal_strlit("minimum");
        reveal_strlit("default");
        reveal_strlit("description");
        assert forall|i: int, j: int| 0 <= i < j < entries@.len() implies (#[trigger] entries@[i]).0@
            != (#[trigger] entries@[j]).0@ by {
            assert(entries@[i].0@[0] != entries@[j].0@[0] || entries@[i].0@[2] != entries@[j].0@[2]);
        }
    }
    let value = json_object(entries);
    proof {
        assert(entries@[0].0@ == "type"@);
        assert(entries@[1].0@ == "minimum"@);
        assert(entries@[2].0@ == "default"@);
        assert(entries@[3].0@ == "description"@);
    }
    value
}

impl ShellJobInteractTool {
    /// The arguments of an interaction: the job `handle`, which is required,
    /// the `input` to send, and the `wait_ms` to wait for output.
    pub fn parameters() -> (schema: Value)
        ensures
            closed_object_schema(
                json_contents(schema),
                model_child(json_contents(schema), PathStep::Key("properties"@))->Some_0,
                seq!["handle"@],
            ),
            ({
                let properties = model_child(json_contents(schema), PathStep::Key("properties"@))->Some_0;
                &&& properties is Object
                &&& properties->Object_0.len() == 3
                &&& model_child(properties, PathStep::Key("handle"@)) matches Some(handle) && described_property(
                    handle,
                    "string"@,
                    INTERACT_HANDLE_DESCRIPTION@,
                )
                &&& model_child(properties, PathStep::Key("input"@)) matches Some(input) && described_property(
                    input,
                    "string"@,
                    INTERACT_INPUT_DESCRIPTION@,
                )
                &&& model_child(properties, PathStep::Key("wait_ms"@)) matches Some(wait) && wait_property(wait)
            }),
    {
        let handle = described_property_value("string", INTERACT_HANDLE_DESCRIPTION);
        let input = described_property_value("string", INTERACT_INPUT_DESCRIPTION);
        let wait = wait_property_value();
        let ghost (h, i, w) = (json_contents(handle), json_contents(input), json_contents(wait));
        let mut entries: Vec<(String, Value)> = Vec::new();
        entries.push(("handle".to_owned(), handle));
        entries.push(("input".to_owned(), input));
        entries.push(("wait_ms".to_owned(), wait));
        proof {
            reveal_strlit("handle");
            reveal_strlit("input");
            reveal_strlit("wait_ms");
            assert forall|a: int, b: int| 0 <= a < b < entries@.len() implies (#[trigger] entries@[a]).0@
                != (#[trigger] entries@[b]).0@ by {
                assert(entries@[a].0@[0] != entries@[b].0@[0]);
            }
        }
        let properties = json_object(entries);
        proof {
            assert(entries@[0].0@ == "handle"@);
            assert(entries@[1].0@ == "input"@);
            assert(entries@[2].0@ == "wait_ms"@);
        }
        closed_object_schema_value(properties, "handle")
    }
}

/// A tool as the model is told of it.
pub fn definition(name: &str, description: &str, parameters: Value) -> (tool: PhiToolDefinition)
    ensures
        tool.name@ == name@,
        tool.description@ == description@,
        tool.parameters == parameters,
{
    PhiToolDefinition { name: name.to_owned(), description: description.to_owned(), parameters }
}

/// The shell job tools, in the order the executor holds them: the job
/// starter of the platform, then interaction, then closing.
pub fn shell_job_tool_definitions(windows: bool) -> (tools: Vec<PhiToolDefinition>)
    ensures
        tools@.len() == 3,
        tools@[0].name@ == (if windows { "powershell_job"@ } else { "bash_job"@ }),
        tools@[1].name@ == "job_interact"@,
        tools@[2].name@ == "job_close"@,
        tools@[0].description@ == (if windows { "Run a PowerShell command job."@ } else { "Run a bash command job."@ }),
        tools@[1].description@ == INTERACT_DESCRIPTION@,
        tools@[2].description@ == "Read current output, stop a local job, and release its resources."@,
        closed_object_schema(
            json_contents(tools@[0].parameters),
            model_child(json_contents(tools@[0].parameters), PathStep::Key("properties"@))->Some_0,
            seq!["cmd"@],
        ),
        closed_object_schema(
            json_contents(tools@[1].parameters),
            model_child(json_contents(tools@[1].parameters), PathStep::Key("properties"@))->Some_0,
            seq!["handle"@],
        ),
        closed_object_schema(
            json_contents(tools@[2].parameters),
            model_child(json_contents(tools@[2].parameters), PathStep::Key("properties"@))->Some_0,
            seq!["handle"@],
        ),
{
    let mut tools: Vec<PhiToolDefinition> = Vec::new();
    tools.push(
        definition(ShellJobExecTool::name(windows), ShellJobExecTool::description(windows), ShellJobExecTool::parameters()),
    );
    tools.push(
        definition(ShellJobInteractTool::name(), ShellJobInteractTool::description(), ShellJobInteractTool::parameters()),
    );
    tools.push(definition(ShellJobCloseTool::name(), ShellJobCloseTool::description(), ShellJobCloseTool::parameters()));
    tools
}

} // verus!
