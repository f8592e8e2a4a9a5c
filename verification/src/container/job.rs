//! Persistent shell jobs: their handles, status and output.
use vstd::prelude::*;
use vstd::string::StringSliceAdditionalSpecFns;
use crate::text::push_char;

verus! {

#[derive(Clone, Copy, PartialEq, Eq, Structural)]
pub enum JobStatus {
    Running,
    Exited(i8),
    NoExist,
}

/// What a job reported: its status, output, whether the output was cut, and how
/// long the request waited, in milliseconds.
pub struct JobInfo {
    pub status: JobStatus,
    pub output: String,
    pub truncated: bool,
    pub waited_ms: u64,
}

pub struct JobHandle(pub String);

/// An access request for a running job.
pub enum JobAccess {
    /// Write input without waiting for or acquiring an output delta.
    Write { data: String },
    /// Write input and acquire the output delta since the previous interaction,
    /// waiting at most `try_wait_ms` milliseconds for the job to exit or its
    /// output to settle.
    Interact { data: String, try_wait_ms: u64 },
}

pub enum JobAccessResult {
    Written(JobStatus),
    Interacted(JobInfo),
}

/// Letters in a handle, around one separator.
pub const HANDLE_LETTER_COUNT: usize = 8;
pub const HANDLE_ENCODED_LENGTH: usize = 9;
pub const HANDLE_SEPARATOR_INDEX: usize = 4;
/// Random bytes at or above this limit are dropped so that letters stay uniform.
pub const HANDLE_UNBIASED_BYTE_LIMIT: u8 = 234;
/// How many 16-byte draws `JobHandle::random` makes before it gives up.
pub const HANDLE_MAX_DRAWS: u64 = 1_000_000;

/// Four lower-case ASCII letters, `-`, and four more.
pub open spec fn valid_handle_bytes(b: Seq<u8>) -> bool {
    &&& b.len() == HANDLE_ENCODED_LENGTH
    &&& forall|i: int|
        0 <= i < b.len() ==> if i == HANDLE_SEPARATOR_INDEX {
            #[trigger] b[i] == 45u8
        } else {
            97u8 <= b[i] <= 122u8
        }
}

/// A handle under construction: letters, with the separator at its place.
pub open spec fn handle_prefix(chars: Seq<char>) -> bool {
    &&& chars.len() <= HANDLE_ENCODED_LENGTH
    &&& forall|i: int|
        0 <= i < chars.len() ==> if i == HANDLE_SEPARATOR_INDEX {
            #[trigger] chars[i] == '-'
        } else {
            'a' <= chars[i] <= 'z'
        }
}

/// `getrandom::fill` on a buffer of 16: random bytes from the operating
/// system, or the error's message. That message ("OS Error: N", "Unknown
/// Error: N", or one of getrandom's fixed descriptions) is never the library's
/// own give-up message.
#[verifier::external_body]
fn random_bytes() -> (bytes: Result<Vec<u8>, String>)
    ensures
        bytes matches Ok(b) ==> b@.len() == 16,
        bytes matches Err(e) ==> e@ != handle_budget_message(),
{
    let mut buffer = [0u8; 16];
    match getrandom::fill(&mut buffer) {
        Ok(()) => Ok(buffer.to_vec()),
        Err(error) => Err(error.to_string()),
    }
}

/// A string with the given characters.
fn string_from_chars(chars: &Vec<char>) -> (text: String)
    ensures
        text@ == chars@,
{
    let mut text = String::new();
    let mut i: usize = 0;
    while i < chars.len()
        invariant
            i <= chars@.len(),
            text@ == chars@.take(i as int),
        decreases chars.len() - i,
    {
        push_char(&mut text, chars[i]);
        i += 1;
        assert(text@ =~= chars@.take(i as int));
    }
    assert(chars@.take(chars@.len() as int) =~= chars@);
    text
}

/// The letter that an accepted random byte stands for.
pub open spec fn handle_letter(byte: u8) -> char {
    ((97 + byte % 26) as u8) as char
}

/// One random byte applied to a handle under construction: a complete handle,
/// or a byte at or above the unbiased limit, leaves it as it is; otherwise the
/// byte's letter is appended, after the separator where the separator is due.
pub open spec fn handle_step(handle: Seq<char>, byte: u8) -> Seq<char> {
    if handle.len() >= HANDLE_ENCODED_LENGTH || byte >= HANDLE_UNBIASED_BYTE_LIMIT {
        handle
    } else if handle.len() == HANDLE_SEPARATOR_INDEX {
        handle.push('-').push(handle_letter(byte))
    } else {
        handle.push(handle_letter(byte))
    }
}

/// `handle` after the bytes of `random`, in order.
pub open spec fn extended_handle(handle: Seq<char>, random: Seq<u8>) -> Seq<char>
    decreases random.len(),
{
    if random.len() == 0 {
        handle
    } else {
        handle_step(extended_handle(handle, random.drop_last()), random.last())
    }
}

/// Once a handle is complete, further bytes leave it as it is.
proof fn lemma_complete_handle_stays(handle: Seq<char>, random: Seq<u8>, i: int, j: int)
    requires
        0 <= i <= j <= random.len(),
        extended_handle(handle, random.take(i)).len() >= HANDLE_ENCODED_LENGTH,
    ensures
        extended_handle(handle, random.take(j)) == extended_handle(handle, random.take(i)),
    decreases j - i,
{
    if j > i {
        lemma_complete_handle_stays(handle, random, i, j - 1);
        assert(random.take(j).drop_last() =~= random.take(j - 1));
    }
}

/// Appends the letters that `random` yields to `handle`, until it is complete.
fn extend_handle(handle: &mut Vec<char>, random: &Vec<u8>)
    requires
        handle_prefix(old(handle)@),
    ensures
        final(handle)@ == extended_handle(old(handle)@, random@),
        handle_prefix(final(handle)@),
        final(handle)@.len() >= old(handle)@.len(),
{
    let mut i: usize = 0;
    while i < random.len() && handle.len() < HANDLE_ENCODED_LENGTH
        invariant
            i <= random@.len(),
            handle_prefix(handle@),
            handle@.len() >= old(handle)@.len(),
            handle@ == extended_handle(old(handle)@, random@.take(i as int)),
        decreases random.len() - i,
    {
        let byte = random[i];
        i += 1;
        assert(random@.take(i as int).drop_last() =~= random@.take(i - 1));
        if byte >= HANDLE_UNBIASED_BYTE_LIMIT {
            continue;
        }
        if handle.len() == HANDLE_SEPARATOR_INDEX {
            handle.push('-');
        }
        let letter = ((97u8 + byte % 26) as char);
        assert(letter == handle_letter(byte));
        handle.push(letter);
    }
    proof {
        if i < random.len() {
            lemma_complete_handle_stays(old(handle)@, random@, i as int, random@.len() as int);
        }
        assert(random@.take(random@.len() as int) =~= random@);
    }
}

/// The error of a handle search that ran out of draws.
pub open spec fn handle_budget_message() -> Seq<char> {
    "random source did not yield a job handle"@
}

/// A handle after the draws of random bytes, in order.
pub open spec fn handle_after_draws(draws: Seq<Seq<u8>>) -> Seq<char>
    decreases draws.len(),
{
    if draws.len() == 0 {
        Seq::empty()
    } else {
        extended_handle(handle_after_draws(draws.drop_last()), draws.last())
    }
}

/// The handle that the draws make within the draw budget: the first
/// `HANDLE_MAX_DRAWS` draws are used, and the handle exists only where they
/// complete it.
pub open spec fn drawn_handle(draws: Seq<Seq<u8>>) -> Option<Seq<char>> {
    let used = if draws.len() <= HANDLE_MAX_DRAWS { draws } else { draws.take(HANDLE_MAX_DRAWS as int) };
    let handle = handle_after_draws(used);
    if handle.len() >= HANDLE_ENCODED_LENGTH {
        Some(handle)
    } else {
        None
    }
}

/// Draws as the random source gives them: at most the budget, 16 bytes each.
pub open spec fn budgeted_draws(draws: Seq<Seq<u8>>) -> bool {
    &&& draws.len() <= HANDLE_MAX_DRAWS
    &&& forall|i: int| 0 <= i < draws.len() ==> (#[trigger] draws[i]).len() == 16
}

/// Bytes applied to a complete handle leave it as it is.
proof fn lemma_full_handle_stays(handle: Seq<char>, random: Seq<u8>)
    requires
        handle.len() >= HANDLE_ENCODED_LENGTH,
    ensures
        extended_handle(handle, random) == handle,
{
    assert(random.take(0) =~= Seq::<u8>::empty());
    lemma_complete_handle_stays(handle, random, 0, random.len() as int);
    assert(random.take(random.len() as int) =~= random);
}

/// Further draws leave a complete handle as it is.
proof fn lemma_full_handle_stays_after_draws(draws: Seq<Seq<u8>>, i: int, j: int)
    requires
        0 <= i <= j <= draws.len(),
        handle_after_draws(draws.take(i)).len() >= HANDLE_ENCODED_LENGTH,
    ensures
        handle_after_draws(draws.take(j)) == handle_after_draws(draws.take(i)),
    decreases j - i,
{
    if j > i {
        lemma_full_handle_stays_after_draws(draws, i, j - 1);
        assert(draws.take(j).drop_last() =~= draws.take(j - 1));
        lemma_full_handle_stays(handle_after_draws(draws.take(j - 1)), draws.take(j).last());
    }
}

/// The handle whose characters are `chars`, a complete handle.
fn handle_of_chars(chars: &Vec<char>) -> (handle: JobHandle)
    requires
        handle_prefix(chars@),
        chars@.len() == HANDLE_ENCODED_LENGTH,
    ensures
        handle.0@ == chars@,
        valid_handle_bytes(vstd::utf8::encode_utf8(handle.0@)),
{
    let text = string_from_chars(chars);
    proof {
        broadcast use vstd::string::is_ascii_spec_bytes;
        assert(vstd::utf8::is_ascii_chars(text@)) by {
            assert forall|i: int| 0 <= i < text@.len() implies #[trigger] (text@[i] as nat) < 128 by {
                assert(handle_prefix(chars@));
            }
        }
    }
    let view = text.as_str();
    proof {
        broadcast use vstd::string::is_ascii_spec_bytes;
        let b = view.spec_bytes();
        assert(vstd::string::is_ascii(view));
        assert forall|i: int| 0 <= i < b.len() implies if i == HANDLE_SEPARATOR_INDEX {
            #[trigger] b[i] == 45u8
        } else {
            97u8 <= b[i] <= 122u8
        } by {
            assert(b[i] == text@[i] as u8);
        }
    }
    JobHandle(text)
}

impl JobHandle {
    /// The handle that `draws` of random bytes make: each draw's bytes are
    /// applied in order (see `extend_handle`) until the handle is complete.
    /// Where the first `HANDLE_MAX_DRAWS` draws do not complete it, the search
    /// gives up with an error.
    pub fn from_draws(draws: &Vec<Vec<u8>>) -> (handle: Result<JobHandle, String>)
        ensures
            drawn_handle(draws@.map_values(|d: Vec<u8>| d@)) matches Some(h) ==> (handle matches Ok(j) && j.0@ == h),
            drawn_handle(draws@.map_values(|d: Vec<u8>| d@)) is None ==> (handle matches Err(e) && e@ == handle_budget_message()),
            handle matches Ok(j) ==> valid_handle_bytes(vstd::utf8::encode_utf8(j.0@)),
    {
        let ghost all = draws@.map_values(|d: Vec<u8>| d@);
        let limit: usize = if (draws.len() as u64) <= HANDLE_MAX_DRAWS { draws.len() } else { HANDLE_MAX_DRAWS as usize };
        let ghost used = if all.len() <= HANDLE_MAX_DRAWS { all } else { all.take(HANDLE_MAX_DRAWS as int) };
        assert(used =~= all.take(limit as int));
        let mut chars: Vec<char> = Vec::new();
        let mut i: usize = 0;
        while i < limit && chars.len() < HANDLE_ENCODED_LENGTH
            invariant
                limit <= draws@.len(),
                all == draws@.map_values(|d: Vec<u8>| d@),
                used == all.take(limit as int),
                i <= limit,
                handle_prefix(chars@),
                chars@ == handle_after_draws(all.take(i as int)),
            decreases limit - i,
        {
            assert(all.take(i + 1).drop_last() =~= all.take(i as int));
            assert(all.take(i + 1).last() == draws@[i as int]@);
            extend_handle(&mut chars, &draws[i]);
            i += 1;
        }
        proof {
            if i < limit {
                lemma_full_handle_stays_after_draws(all, i as int, limit as int);
            }
        }
        if chars.len() < HANDLE_ENCODED_LENGTH {
            return Err("random source did not yield a job handle".to_owned());
        }
        Ok(handle_of_chars(&chars))
    }

    /// A fresh handle of random letters, drawn 16 bytes at a time from the
    /// operating system's random source. The search gives up after
    /// `HANDLE_MAX_DRAWS` draws that did not complete the handle; an error of
    /// the random source is handed on as it is.
    pub fn random() -> (handle: Result<JobHandle, String>)
        ensures
            handle matches Ok(h) ==> valid_handle_bytes(vstd::utf8::encode_utf8(h.0@)),
            handle matches Ok(h) ==> exists|draws: Seq<Seq<u8>>|
                #![trigger drawn_handle(draws)]
                budgeted_draws(draws) && drawn_handle(draws) == Some(h.0@),
            handle matches Err(e) && e@ == handle_budget_message() ==> exists|draws: Seq<Seq<u8>>|
                #![trigger drawn_handle(draws)]
                budgeted_draws(draws) && draws.len() == HANDLE_MAX_DRAWS && drawn_handle(draws) is None,
    {
        let mut chars: Vec<char> = Vec::new();
        let mut count: u64 = 0;
        let ghost mut draws: Seq<Seq<u8>> = Seq::empty();
        while chars.len() < HANDLE_ENCODED_LENGTH
            invariant
                handle_prefix(chars@),
                count == draws.len(),
                budgeted_draws(draws),
                chars@ == handle_after_draws(draws),
            decreases HANDLE_MAX_DRAWS - count,
        {
            if count >= HANDLE_MAX_DRAWS {
                proof {
                    assert(drawn_handle(draws) is None);
                }
                return Err("random source did not yield a job handle".to_owned());
            }
            count += 1;
            let random = match random_bytes() {
                Ok(bytes) => bytes,
                Err(error) => return Err(error),
            };
            extend_handle(&mut chars, &random);
            proof {
                let before = draws;
                draws = draws.push(random@);
                assert(draws.drop_last() =~= before);
            }
        }
        let handle = handle_of_chars(&chars);
        proof {
            assert(drawn_handle(draws) == Some(handle.0@));
        }
        Ok(handle)
    }

    pub fn is_valid(value: &str) -> (valid: bool)
        ensures
            valid == valid_handle_bytes(value.spec_bytes()),
    {
        let bytes = value.as_bytes();
        if bytes.len() != HANDLE_ENCODED_LENGTH {
            return false;
        }
        let mut i: usize = 0;
        while i < bytes.len()
            invariant
                bytes@ == value.spec_bytes(),
                bytes@.len() == HANDLE_ENCODED_LENGTH,
                i <= bytes@.len(),
                forall|k: int|
                    0 <= k < i ==> if k == HANDLE_SEPARATOR_INDEX {
                        #[trigger] bytes@[k] == 45u8
                    } else {
                        97u8 <= bytes@[k] <= 122u8
                    },
            decreases bytes.len() - i,
        {
            let byte = bytes[i];
            let ok = if i == HANDLE_SEPARATOR_INDEX {
                byte == 45u8
            } else {
                97u8 <= byte && byte <= 122u8
            };
            if !ok {
                return false;
            }
            i += 1;
        }
        true
    }
}

impl JobInfo {
    pub fn new(status: JobStatus, output: String, truncated: bool, waited_ms: u64) -> (info: JobInfo)
        ensures
            info == (JobInfo { status, output, truncated, waited_ms }),
    {
        JobInfo { status, output, truncated, waited_ms }
    }

    pub fn status(&self) -> (status: &JobStatus)
        ensures
            *status == self.status,
    {
        &self.status
    }

    pub fn outputs(&self) -> (output: &str)
        ensures
            output@ == self.output@,
    {
        self.output.as_str()
    }

    pub fn truncated(&self) -> (truncated: bool)
        ensures
            truncated == self.truncated,
    {
        self.truncated
    }

    /// Milliseconds spent waiting for process exit or terminal output to settle;
    /// non-interactive access reports zero.
    pub fn waited(&self) -> (waited_ms: u64)
        ensures
            waited_ms == self.waited_ms,
    {
        self.waited_ms
    }

    pub fn into_parts(self) -> (parts: (JobStatus, String, bool, u64))
        ensures
            parts == (self.status, self.output, self.truncated, self.waited_ms),
    {
        (self.status, self.output, self.truncated, self.waited_ms)
    }
}

/// The job container that runs each job on this machine, under a detached
/// server of its own.
pub struct LocalShellJobContainer;

} // verus!
