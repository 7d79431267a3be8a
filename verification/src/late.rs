//! What is reported of a wait that outlasts its deadline.
//!
//! What the queue was doing comes from the record of the submissions; here it is
//! set into the lines.

use crate::pools::limits::FENCE_TIMEOUT_NS;
use crate::text::{append_decimal, append_text, decimal, owned};
use vstd::prelude::*;

verus! {

/// The text of each of `lines`.
pub open spec fn texts(lines: Seq<String>) -> Seq<Seq<char>> {
    lines.map_values(|line: String| line@)
}

fn add_line(lines: &mut Vec<String>, line: String)
    ensures
        texts(final(lines)@) == texts(old(lines)@).push(line@),
{
    lines.push(line);
    assert(texts(lines@) =~= texts(old(lines)@).push(line@));
}

/// What the record of the submissions tells when a stamp is late.
#[derive(Debug)]
pub struct HangTrail {
    /// The slot of the submission that the stamp waits for, and what it holds.
    pub submission: Option<(usize, String)>,
    /// The other submissions that are not over.
    pub outstanding: Option<String>,
    /// What was recorded last.
    pub trail: Option<String>,
    /// The pipelines that were used for the first time of late.
    pub pipeline_firsts: Option<String>,
}

/// How each line about a late stamp begins.
pub open spec fn late_stamp_head(event: Seq<char>, index: u32, timeline: u64) -> Seq<char> {
    event + " reason=stamp_wait_timeout index="@ + decimal(index as nat) + " value="@ + decimal(
        timeline as nat,
    )
}

fn stamp_head(event: &str, index: u32, timeline: u64) -> (line: String)
    ensures
        line@ == late_stamp_head(event@, index, timeline),
{
    let mut line = owned(event);
    append_text(&mut line, " reason=stamp_wait_timeout index=");
    append_decimal(&mut line, index as u64);
    append_text(&mut line, " value=");
    append_decimal(&mut line, timeline);
    line
}

/// The submission that a late stamp waits for.
pub open spec fn late_submission_text(
    index: u32,
    timeline: u64,
    submission: Option<(usize, String)>,
) -> Seq<char> {
    let head = late_stamp_head("stamp_wait_timeout_submission"@, index, timeline);
    match submission {
        Some((slot, held)) => head + " slot="@ + decimal(slot as nat) + " held=["@ + held@ + "]"@,
        None => head
            + " held=none (no live submission-ring entry carries this timeline point)"@,
    }
}

/// `lines` with one more, where there is something to tell.
pub open spec fn told(
    lines: Seq<Seq<char>>,
    event: Seq<char>,
    index: u32,
    timeline: u64,
    rest: Option<String>,
) -> Seq<Seq<char>> {
    match rest {
        Some(rest) => lines.push(late_stamp_head(event, index, timeline) + " "@ + rest@),
        None => lines,
    }
}

fn tell(lines: &mut Vec<String>, event: &str, index: u32, timeline: u64, rest: &Option<String>)
    ensures
        texts(final(lines)@) == told(texts(old(lines)@), event@, index, timeline, *rest),
{
    if let Some(rest) = rest {
        let mut line = stamp_head(event, index, timeline);
        append_text(&mut line, " ");
        append_text(&mut line, rest.as_str());
        add_line(lines, line);
    }
}

/// The lines about the stamp of FIFO `index` that waits for `timeline`, behind the
/// one that says so.
pub open spec fn late_stamp_texts(index: u32, timeline: u64, trail: HangTrail) -> Seq<Seq<char>> {
    let held = seq![late_submission_text(index, timeline, trail.submission)];
    let queue = told(held, "stamp_wait_timeout_queue"@, index, timeline, trail.outstanding);
    let recorded = told(queue, "stamp_wait_timeout_trail"@, index, timeline, trail.trail);
    told(recorded, "stamp_wait_timeout_pipes"@, index, timeline, trail.pipeline_firsts)
}

/// The lines about the stamp of FIFO `index` that waits for `timeline`, behind the
/// one that says so. The submission is found by the point it signals, not by the
/// FIFO.
pub fn late_stamp_lines(index: u32, timeline: u64, trail: &HangTrail) -> (lines: Vec<String>)
    ensures
        texts(lines@) == late_stamp_texts(index, timeline, *trail),
{
    let mut lines: Vec<String> = Vec::new();
    assert(texts(lines@) =~= Seq::empty());
    let mut line = stamp_head("stamp_wait_timeout_submission", index, timeline);
    match &trail.submission {
        Some((slot, held)) => {
            append_text(&mut line, " slot=");
            append_decimal(&mut line, *slot as u64);
            append_text(&mut line, " held=[");
            append_text(&mut line, held.as_str());
            append_text(&mut line, "]");
        },
        None => {
            append_text(
                &mut line,
                " held=none (no live submission-ring entry carries this timeline point)",
            );
        },
    }
    add_line(&mut lines, line);
    tell(&mut lines, "stamp_wait_timeout_queue", index, timeline, &trail.outstanding);
    tell(&mut lines, "stamp_wait_timeout_trail", index, timeline, &trail.trail);
    tell(&mut lines, "stamp_wait_timeout_pipes", index, timeline, &trail.pipeline_firsts);
    lines
}

/// A fence that is late.
#[derive(Clone, Copy, Debug, PartialEq, Eq, Structural)]
pub enum DelayedFence {
    /// That of a slot which is taken back.
    Retiring(usize),
    /// One that is awaited alone, with its slot where it has one.
    Awaited(Option<usize>),
}

/// The line that says that a fence is late. `held` is what its submission holds.
pub open spec fn fence_delayed_text(fence: DelayedFence, held: Option<String>) -> Seq<char> {
    let slot = match fence {
        DelayedFence::Retiring(slot) => decimal(slot as nat),
        DelayedFence::Awaited(Some(slot)) => decimal(slot as nat),
        DelayedFence::Awaited(None) => "unknown"@,
    };
    let what = match (held, fence) {
        (Some(held), _) => held@,
        (None, DelayedFence::Retiring(_)) => "none (this slot's work was never recorded)"@,
        (None, DelayedFence::Awaited(_)) => "none"@,
    };
    "vk_engine_fence_delayed reason=vk_engine_fence_delayed slot="@ + slot + " deadline_ns="@
        + decimal(FENCE_TIMEOUT_NS as nat) + " held="@ + what
}

/// The lines about a late fence: what its submission holds, and the others that
/// are not over.
pub fn fence_delayed_lines(
    fence: DelayedFence,
    held: &Option<String>,
    outstanding: &Option<String>,
) -> (lines: Vec<String>)
    ensures
        texts(lines@) == match outstanding {
            Some(rest) => seq![fence_delayed_text(fence, *held)].push(
                "vk_engine_fence_delayed_queue reason=vk_engine_fence_delayed "@ + rest@,
            ),
            None => seq![fence_delayed_text(fence, *held)],
        },
{
    let mut lines: Vec<String> = Vec::new();
    assert(texts(lines@) =~= Seq::empty());
    let mut line = owned("vk_engine_fence_delayed reason=vk_engine_fence_delayed slot=");
    match fence {
        DelayedFence::Retiring(slot) => append_decimal(&mut line, slot as u64),
        DelayedFence::Awaited(Some(slot)) => append_decimal(&mut line, slot as u64),
        DelayedFence::Awaited(None) => append_text(&mut line, "unknown"),
    }
    append_text(&mut line, " deadline_ns=");
    append_decimal(&mut line, FENCE_TIMEOUT_NS);
    append_text(&mut line, " held=");
    match (held, fence) {
        (Some(held), _) => append_text(&mut line, held.as_str()),
        (None, DelayedFence::Retiring(_)) => append_text(
            &mut line,
            "none (this slot's work was never recorded)",
        ),
        (None, DelayedFence::Awaited(_)) => append_text(&mut line, "none"),
    }
    add_line(&mut lines, line);
    if let Some(rest) = outstanding {
        let mut line = owned("vk_engine_fence_delayed_queue reason=vk_engine_fence_delayed ");
        append_text(&mut line, rest.as_str());
        add_line(&mut lines, line);
    }
    lines
}

/// A late stamp is told in one line for its submission and one more for everything else that
/// is known, in that order.
pub proof fn law_everything_known_of_a_late_stamp_is_told(
    index: u32,
    timeline: u64,
    trail: HangTrail,
)
    ensures
        ({
            let lines = late_stamp_texts(index, timeline, trail);
            let one = |known: Option<String>| if known is Some {
                1int
            } else {
                0int
            };
            &&& lines.len() == 1 + one(trail.outstanding) + one(trail.trail) + one(
                trail.pipeline_firsts,
            )
            &&& lines[0] == late_submission_text(index, timeline, trail.submission)
            &&& trail.pipeline_firsts matches Some(rest) ==> lines.last() == late_stamp_head(
                "stamp_wait_timeout_pipes"@,
                index,
                timeline,
            ) + " "@ + rest@
            &&& trail.outstanding matches Some(rest) ==> lines[1] == late_stamp_head(
                "stamp_wait_timeout_queue"@,
                index,
                timeline,
            ) + " "@ + rest@
            &&& trail.trail matches Some(rest) ==> lines[1 + one(trail.outstanding)]
                == late_stamp_head("stamp_wait_timeout_trail"@, index, timeline) + " "@ + rest@
        }),
{
}

/// The text of each line is its own, in order.
pub proof fn law_lines_come_in_order(lines: Seq<String>, k: int)
    requires
        0 <= k < lines.len(),
    ensures
        texts(lines).len() == lines.len(),
        texts(lines)[k] == lines[k]@,
{
}

/// A delayed fence is told with its slot where one is known, and with what the slot held.
pub proof fn law_a_delayed_fence_is_told_with_its_slot(slot: usize, held: Option<String>)
    ensures
        held matches Some(what) ==> fence_delayed_text(DelayedFence::Retiring(slot), held)
            == fence_delayed_text(DelayedFence::Awaited(Some(slot)), held),
        fence_delayed_text(DelayedFence::Retiring(slot), held).take(
            ("vk_engine_fence_delayed reason=vk_engine_fence_delayed slot="@ + decimal(
                slot as nat,
            ) + " deadline_ns="@ + decimal(FENCE_TIMEOUT_NS as nat) + " held="@).len() as int,
        ) == "vk_engine_fence_delayed reason=vk_engine_fence_delayed slot="@ + decimal(slot as nat)
            + " deadline_ns="@ + decimal(FENCE_TIMEOUT_NS as nat) + " held="@,
        held matches Some(what) ==> fence_delayed_text(DelayedFence::Retiring(slot), held)
            == "vk_engine_fence_delayed reason=vk_engine_fence_delayed slot="@ + decimal(
            slot as nat,
        ) + " deadline_ns="@ + decimal(FENCE_TIMEOUT_NS as nat) + " held="@ + what@,
{
    let head = "vk_engine_fence_delayed reason=vk_engine_fence_delayed slot="@ + decimal(
        slot as nat,
    ) + " deadline_ns="@ + decimal(FENCE_TIMEOUT_NS as nat) + " held="@;
    assert(fence_delayed_text(DelayedFence::Retiring(slot), held).take(head.len() as int) =~= head);
}

} // verus!
