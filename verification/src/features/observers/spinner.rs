//! The spinner shown while the agent waits: its frames, its label and the
//! elapsed time beside it.
use vstd::prelude::*;

use crate::text::{decimal_chars, push_decimal};

verus! {

/// Seconds before a waiting label changes.
pub const LABEL_ROTATE_SECS: u64 = 3;

/// Number of labels a model request rotates through.
pub const THINKING_LABEL_COUNT: usize = 69;

/// One way to draw the spinner: its frames, each one character, and the
/// milliseconds between them.
pub struct SpinnerStyle {
    pub frames: Vec<char>,
    pub tick_ms: u64,
}

/// A character that is not in the emoji blocks.
pub open spec fn not_emoji(c: char) -> bool {
    !(0x1f000 <= (c as u32) <= 0x1faff)
}

/// Spinner styles for terminals that show UTF-8.
pub fn utf8_styles() -> (styles: Vec<SpinnerStyle>)
    ensures
        styles@.len() == 8,
        forall|i: int| 0 <= i < styles@.len() ==> #[trigger] styles@[i].frames@.len() > 0,
        forall|i: int, j: int|
            0 <= i < styles@.len() && 0 <= j < styles@[i].frames@.len() ==> not_emoji(#[trigger] styles@[i].frames@[j]),
{
    let mut styles = Vec::new();
    styles.push(SpinnerStyle { frames: vec!['⠋', '⠙', '⠹', '⠸', '⠼', '⠴', '⠦', '⠧', '⠇', '⠏'], tick_ms: 90 });
    styles.push(SpinnerStyle { frames: vec!['◐', '◓', '◑', '◒'], tick_ms: 140 });
    styles.push(SpinnerStyle { frames: vec!['◴', '◷', '◶', '◵'], tick_ms: 160 });
    styles.push(SpinnerStyle { frames: vec!['◜', '◠', '◝', '◞', '◡', '◟'], tick_ms: 130 });
    styles.push(SpinnerStyle { frames: vec!['▖', '▘', '▝', '▗'], tick_ms: 140 });
    styles.push(SpinnerStyle { frames: vec!['▁', '▃', '▅', '▇', '▅', '▃'], tick_ms: 120 });
    styles.push(SpinnerStyle { frames: vec!['░', '▒', '▓', '█', '▓', '▒'], tick_ms: 140 });
    styles.push(SpinnerStyle { frames: vec!['┤', '┘', '┴', '└', '├', '┌', '┬', '┐'], tick_ms: 110 });
    styles
}

/// The spinner style for terminals that may not show UTF-8.
pub fn ascii_styles() -> (styles: Vec<SpinnerStyle>)
    ensures
        styles@.len() == 1,
        forall|i: int| 0 <= i < styles@.len() ==> #[trigger] styles@[i].frames@.len() > 0,
        forall|i: int, j: int|
            0 <= i < styles@.len() && 0 <= j < styles@[i].frames@.len() ==> (#[trigger] styles@[i].frames@[j] as u32) < 128,
{
    let mut styles = Vec::new();
    styles.push(SpinnerStyle { frames: vec!['-', '\\', '|', '/'], tick_ms: 100 });
    styles
}

/// Two decimal digits of a number below 100.
pub open spec fn two_digits(n: nat) -> Seq<char> {
    if n < 10 { "0"@ + decimal_chars(n) } else { decimal_chars(n) }
}

pub open spec fn elapsed_spec(total_seconds: nat) -> Seq<char> {
    let hours = total_seconds / 3600;
    let minutes = total_seconds / 60;
    let seconds = total_seconds % 60;
    if hours > 0 {
        decimal_chars(hours) + "h "@ + two_digits((total_seconds % 3600) / 60) + "m "@ + two_digits(seconds) + "s"@
    } else if minutes > 0 {
        decimal_chars(minutes) + "m "@ + two_digits(seconds) + "s"@
    } else {
        decimal_chars(seconds) + "s"@
    }
}

fn push_two_digits(out: &mut String, n: u64)
    requires
        n < 100,
    ensures
        final(out)@ == old(out)@ + two_digits(n as nat),
{
    if n < 10 {
        out.append("0");
        proof {
            reveal_strlit("0");
        }
    }
    push_decimal(out, n);
    proof {
        if n < 10 {
            assert(final(out)@ =~= old(out)@ + two_digits(n as nat));
        }
    }
}

/// The time since the spinner started: `{s}s`, `{m}m {ss}s` or `{h}h {mm}m {ss}s`.
pub fn format_elapsed(total_seconds: u64) -> (text: String)
    ensures
        text@ == elapsed_spec(total_seconds as nat),
{
    let hours = total_seconds / 3600;
    let minutes = total_seconds / 60;
    let seconds = total_seconds % 60;
    let mut text = String::new();
    proof {
        reveal_strlit("h ");
        reveal_strlit("m ");
        reveal_strlit("s");
    }
    if hours > 0 {
        push_decimal(&mut text, hours);
        text.append("h ");
        push_two_digits(&mut text, (total_seconds % 3600) / 60);
        text.append("m ");
        push_two_digits(&mut text, seconds);
        text.append("s");
    } else if minutes > 0 {
        push_decimal(&mut text, minutes);
        text.append("m ");
        push_two_digits(&mut text, seconds);
        text.append("s");
    } else {
        push_decimal(&mut text, seconds);
        text.append("s");
    }
    text
}

/// The label to show: the base label, except that a model request rotates
/// through the thinking labels, one step every few seconds from `seed`.
pub open spec fn label_slot(seed: usize, elapsed_secs: u64) -> nat {
    ((seed as nat + (elapsed_secs / LABEL_ROTATE_SECS) as nat) % THINKING_LABEL_COUNT as nat)
}

pub fn thinking_label_index(seed: usize, elapsed_secs: u64) -> (index: usize)
    ensures
        index == label_slot(seed, elapsed_secs),
        index < THINKING_LABEL_COUNT,
{
    let slot = elapsed_secs / LABEL_ROTATE_SECS;
    let seed_part = (seed % THINKING_LABEL_COUNT) as u64;
    let slot_part = slot % (THINKING_LABEL_COUNT as u64);
    let index = ((seed_part + slot_part) % (THINKING_LABEL_COUNT as u64)) as usize;
    proof {
        vstd::arithmetic::div_mod::lemma_add_mod_noop(seed as int, slot as int, THINKING_LABEL_COUNT as int);
    }
    index
}

/// Whether `UTF-8` or `UTF8` starts at `i` of the upper-case form of `value`.
pub open spec fn utf8_at(value: Seq<char>, i: int) -> bool {
    0 <= i && (i + 5 <= value.len() && upper_window(value, i, 5) == "UTF-8"@ || i + 4 <= value.len() && upper_window(
        value,
        i,
        4,
    ) == "UTF8"@)
}

/// Whether a locale value names UTF-8: its upper-case form contains `UTF-8`
/// or `UTF8`.
pub open spec fn names_utf8(value: Seq<char>) -> bool {
    exists|i: int| #[trigger] utf8_at(value, i)
}

/// The ASCII upper-case form of `value[i..i + n]`.
pub open spec fn upper_window(value: Seq<char>, i: int, n: int) -> Seq<char> {
    value.subrange(i, i + n).map_values(|c: char| ascii_upper(c))
}

pub open spec fn ascii_upper(c: char) -> char {
    if 'a' <= c <= 'z' {
        ((c as u32) - 32) as char
    } else {
        c
    }
}

fn to_ascii_upper(c: char) -> (upper: char)
    ensures
        upper == ascii_upper(c),
{
    if 'a' <= c && c <= 'z' {
        (((c as u32) - 32) as u8) as char
    } else {
        c
    }
}

fn window_matches(chars: &Vec<char>, i: usize, word: &Vec<char>) -> (matches: bool)
    requires
        i + word@.len() <= chars@.len(),
    ensures
        matches == (upper_window(chars@, i as int, word@.len() as int) == word@),
{
    let n = chars.len();
    let mut k: usize = 0;
    while k < word.len()
        invariant
            n == chars@.len(),
            i + word@.len() <= chars@.len(),
            k <= word@.len(),
            forall|j: int| 0 <= j < k ==> ascii_upper(#[trigger] chars@[i + j]) == word@[j],
        decreases word.len() - k,
    {
        if to_ascii_upper(chars[i + k]) != word[k] {
            assert(chars@.subrange(i as int, i + word@.len())[k as int] == chars@[i + k]);
            assert(upper_window(chars@, i as int, word@.len() as int)[k as int] != word@[k as int]);
            return false;
        }
        proof {
            assert(chars@.subrange(i as int, i + word@.len())[k as int] == chars@[i + k]);
        }
        k += 1;
    }
    assert forall|j: int| 0 <= j < word@.len() implies #[trigger] upper_window(chars@, i as int, word@.len() as int)[j]
        == word@[j] by {
        assert(chars@.subrange(i as int, i + word@.len())[j] == chars@[i + j]);
    }
    assert(upper_window(chars@, i as int, word@.len() as int) =~= word@);
    true
}

/// Whether a locale setting names UTF-8; no setting does not.
pub fn looks_utf8(value: Option<&str>) -> (utf8: bool)
    ensures
        utf8 == match value {
            Some(v) => names_utf8(v@),
            None => false,
        },
{
    let text = match value {
        Some(text) => text,
        None => return false,
    };
    let chars = crate::text::chars_of_str(text);
    let dashed = vec!['U', 'T', 'F', '-', '8'];
    let plain = vec!['U', 'T', 'F', '8'];
    proof {
        reveal_strlit("UTF-8");
        reveal_strlit("UTF8");
        assert(dashed@ =~= "UTF-8"@);
        assert(plain@ =~= "UTF8"@);
    }
    let n = chars.len();
    let mut i: usize = 0;
    while i < n
        invariant
            n == chars@.len(),
            chars@ == text@,
            value == Some(text),
            dashed@ == "UTF-8"@,
            plain@ == "UTF8"@,
            i <= chars@.len(),
            forall|j: int| 0 <= j < i ==> !#[trigger] utf8_at(chars@, j),
        decreases n - i,
    {
        proof {
            reveal_strlit("UTF-8");
            reveal_strlit("UTF8");
        }
        if n - i >= 5 && window_matches(&chars, i, &dashed) {
            assert(utf8_at(text@, i as int));
            assert(names_utf8(text@));
            return true;
        }
        if n - i >= 4 && window_matches(&chars, i, &plain) {
            assert(utf8_at(text@, i as int));
            assert(names_utf8(text@));
            return true;
        }
        assert(!utf8_at(chars@, i as int));
        i += 1;
    }
    assert forall|j: int| !#[trigger] utf8_at(chars@, j) by {
        if 0 <= j < n {
        } else if j >= n {
        }
    }
    false
}

/// The index of the style to draw with, from a seed.
pub fn style_index(seed: usize, count: usize) -> (index: usize)
    requires
        count > 0,
    ensures
        index == seed % count,
{
    seed % count
}

/// What the spinner says while a tool runs.
pub fn running_label(tool_name: &str) -> (label: String)
    ensures
        label@ == "running "@ + tool_name@,
{
    let mut label = "running ".to_owned();
    label.append(tool_name);
    label
}

/// The labels a model request rotates through while it waits.
pub fn thinking_labels() -> (labels: Vec<&'static str>)
    ensures
        labels@.len() == THINKING_LABEL_COUNT,
{
    let mut labels: Vec<&'static str> = Vec::new();
    labels.push("thinking");
    labels.push("connecting dots");
    labels.push("chasing a hunch");
    labels.push("untangling context");
    labels.push("interviewing the evidence");
    labels.push("bribing the gremlins");
    labels.push("shaking the codebase awake");
    labels.push("following suspicious breadcrumbs");
    labels.push("asking the rubber duck");
    labels.push("massaging the stack trace");
    labels.push("recombobulating thoughts");
    labels.push("coaxing the model");
    labels.push("spelunking for answers");
    labels.push("making the clues line up");
    labels.push("negotiating with entropy");
    labels.push("performing light wizardry");
    labels.push("reading the tea leaves");
    labels.push("poking at assumptions");
    labels.push("turning the puzzle around");
    labels.push("squinting at the details");
    labels.push("listening for loose threads");
    labels.push("dusting for fingerprints");
    labels.push("cross-examining the context");
    labels.push("staring down the weird part");
    labels.push("walking the theory back");
    labels.push("checking the obvious twice");
    labels.push("asking better questions");
    labels.push("replaying the scene");
    labels.push("looking under the floorboards");
    labels.push("lining up the alibis");
    labels.push("stress-testing the hunch");
    labels.push("doing suspiciously legal magic");
    labels.push("making friends with the logs");
    labels.push("coaching the clues");
    labels.push("tugging on loose ends");
    labels.push("untying the knot gently");
    labels.push("following the scent trail");
    labels.push("sorting signal from noise");
    labels.push("turning over one more rock");
    labels.push("trying the least silly idea");
    labels.push("trying the most silly idea");
    labels.push("keeping the gremlins busy");
    labels.push("asking the code nicely");
    labels.push("negotiating with the stack");
    labels.push("reading between the warnings");
    labels.push("looking for the missing stair");
    labels.push("shuffling theories around");
    labels.push("shining a flashlight on it");
    labels.push("counting the moving parts");
    labels.push("checking where the story bends");
    labels.push("holding the pieces together");
    labels.push("comparing notes with reality");
    labels.push("gently interrogating the bug");
    labels.push("waiting for the pattern to blink");
    labels.push("making the weirdness confess");
    labels.push("translating chaos into clues");
    labels.push("stitching the timeline together");
    labels.push("peeling back another layer");
    labels.push("trying not to overfit the mystery");
    labels.push("asking whether that can really be true");
    labels.push("measuring twice, guessing once");
    labels.push("looking for the load-bearing detail");
    labels.push("offending the problem with reason");
    labels.push("bringing order to the nonsense");
    labels.push("double-checking the trapdoor");
    labels.push("tapping on the walls for hollow spots");
    labels.push("following the smoke");
    labels.push("taking the scenic route through logic");
    labels.push("looking for where the truth squeaks");
    labels
}

/// The label shown beside the spinner: the base label, except that a model
/// request ("thinking") rotates through the thinking labels.
pub fn display_label<'a>(base_label: &'a str, labels: &Vec<&'a str>, seed: usize, elapsed_secs: u64) -> (label: &'a str)
    requires
        labels@.len() == THINKING_LABEL_COUNT,
    ensures
        base_label@ != "thinking"@ ==> label == base_label,
        base_label@ == "thinking"@ ==> label == labels@[label_slot(seed, elapsed_secs) as int],
{
    let thinking = "thinking".to_owned();
    if !crate::text::string_equals(&thinking, base_label) {
        proof {
            reveal_strlit("thinking");
        }
        return base_label;
    }
    proof {
        reveal_strlit("thinking");
    }
    labels[thinking_label_index(seed, elapsed_secs)]
}

} // verus!
