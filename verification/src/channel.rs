//! The normalized channel-bridge shapes: message and user types that
//! platform adapters produce, lifecycle phases for UX indicators, and the
//! chunking helper shared by adapters with per-message length limits.

use vstd::prelude::*;
use vstd::string::StrSliceExecFns;
use vstd::string::StringSliceAdditionalSpecFns;
use crate::strutil::push_char;
use crate::text::best_boundary;
use crate::text::lemma_best_boundary;

verus! {

/// The type of messaging channel.
#[derive(Clone, PartialEq, Eq, Hash, Debug)]
pub enum ChannelType {
    Telegram,
    WhatsApp,
    Slack,
    Discord,
    Signal,
    Matrix,
    Email,
    Teams,
    Mattermost,
    WebChat,
    CLI,
    Custom(String),
}

/// A user on a messaging platform.
#[derive(Clone, Debug)]
pub struct ChannelUser {
    /// Platform-specific user ID.
    pub platform_id: String,
    /// Human-readable display name.
    pub display_name: String,
    /// Optional mapping to an OpenFang user identity.
    pub openfang_user: Option<String>,
}

/// Agent lifecycle phase for UX indicators.
#[derive(Clone, Debug)]
pub enum AgentPhase {
    /// Message is queued, waiting for agent.
    Queued,
    /// Agent is calling the LLM.
    Thinking,
    /// Agent is executing a tool.
    ToolUse { tool_name: String },
    /// Agent is streaming tokens.
    Streaming,
    /// Agent finished successfully.
    Done,
    /// Agent encountered an error.
    Error,
}

/// Reaction to show in a channel (emoji-based).
#[derive(Clone, Debug)]
pub struct LifecycleReaction {
    /// The agent phase this reaction represents.
    pub phase: AgentPhase,
    /// Channel-appropriate emoji.
    pub emoji: String,
    /// Whether to remove the previous phase reaction.
    pub remove_previous: bool,
}

/// Delivery status for outbound messages.
#[derive(Clone, Copy, PartialEq, Eq, Structural, Debug)]
pub enum DeliveryStatus {
    /// Message was sent to the channel API.
    Sent,
    /// Message was confirmed delivered to recipient.
    Delivered,
    /// Message delivery failed.
    Failed,
    /// Best-effort delivery (no confirmation available).
    BestEffort,
}

/// A control character: the ranges the Unicode control category covers.
pub open spec fn is_ctrl(c: char) -> bool {
    (c as u32) < 0x20 || (0x7f <= c as u32 <= 0x9f)
}

/// The characters of `s` from position `i` on, control characters removed,
/// cut off after `k` kept characters.
pub open spec fn strip_ctrl_take(s: Seq<char>, i: int, k: nat) -> Seq<char>
    decreases s.len() - i,
{
    if i < 0 || i >= s.len() || k == 0 {
        Seq::empty()
    } else if is_ctrl(s[i]) {
        strip_ctrl_take(s, i + 1, k)
    } else {
        seq![s[i]] + strip_ctrl_take(s, i + 1, (k - 1) as nat)
    }
}

fn is_ctrl_exec(c: char) -> (r: bool)
    ensures
        r == is_ctrl(c),
{
    let u = c as u32;
    u < 0x20 || (0x7f <= u && u <= 0x9f)
}

impl AgentPhase {
    /// Sanitizes a tool name for display: control characters are stripped
    /// and at most 64 characters are kept.
    pub fn tool_use(name: &str) -> (r: AgentPhase)
        ensures
            r matches AgentPhase::ToolUse { tool_name } && tool_name@ == strip_ctrl_take(
                name@,
                0,
                64,
            ),
    {
        let n = name.unicode_len();
        let mut out = String::new();
        let mut kept: u64 = 0;
        let mut i: usize = 0;
        while i < n && kept < 64
            invariant
                i <= n,
                n == name@.len(),
                kept <= 64,
                strip_ctrl_take(name@, 0, 64) == out@ + strip_ctrl_take(
                    name@,
                    i as int,
                    (64 - kept) as nat,
                ),
            decreases n - i,
        {
            let c = name.get_char(i);
            if !is_ctrl_exec(c) {
                push_char(&mut out, c);
                kept = kept + 1;
            }
            i = i + 1;
            proof {
                assert(out@ + strip_ctrl_take(name@, i as int, (64 - kept) as nat) =~= strip_ctrl_take(
                    name@,
                    0,
                    64,
                ));
            }
        }
        proof {
            assert(strip_ctrl_take(name@, i as int, (64 - kept) as nat) =~= Seq::<char>::empty());
            assert(out@ =~= strip_ctrl_take(name@, 0, 64));
        }
        AgentPhase::ToolUse { tool_name: out }
    }
}

/// The default emoji for a given agent phase.
pub fn default_phase_emoji(phase: &AgentPhase) -> (r: &'static str)
    ensures
        phase is Queued ==> r@ == "\u{23F3}"@,
        phase is Thinking ==> r@ == "\u{1F914}"@,
        phase is ToolUse ==> r@ == "\u{2699}\u{FE0F}"@,
        phase is Streaming ==> r@ == "\u{270D}\u{FE0F}"@,
        phase is Done ==> r@ == "\u{2705}"@,
        phase is Error ==> r@ == "\u{274C}"@,
{
    match phase {
        AgentPhase::Queued => "\u{23F3}",
        AgentPhase::Thinking => "\u{1F914}",
        AgentPhase::ToolUse { .. } => "\u{2699}\u{FE0F}",
        AgentPhase::Streaming => "\u{270D}\u{FE0F}",
        AgentPhase::Done => "\u{2705}",
        AgentPhase::Error => "\u{274C}",
    }
}

/// The newline byte.
pub open spec fn nl_byte() -> u8 {
    0x0a
}

/// The carriage-return byte.
pub open spec fn cr_byte() -> u8 {
    0x0d
}

/// The index of the last newline strictly before `end`, or `-1` when the
/// stretch holds none.
pub open spec fn find_last_nl(b: Seq<u8>, end: int) -> int
    decreases end,
{
    if end <= 0 {
        -1
    } else if b[end - 1] == nl_byte() {
        end - 1
    } else {
        find_last_nl(b, end - 1)
    }
}

pub proof fn lemma_find_last_nl_bounds(b: Seq<u8>, end: int)
    requires
        0 <= end,
    ensures
        -1 <= find_last_nl(b, end) < end,
        find_last_nl(b, end) >= 0 ==> b[find_last_nl(b, end)] == nl_byte(),
    decreases end,
{
    if end > 0 && b[end - 1] != nl_byte() {
        lemma_find_last_nl_bounds(b, end - 1);
    }
}

/// Where one chunking step cuts: at the last newline inside the largest
/// UTF-8-safe prefix of at most `max` bytes, or at the end of that prefix
/// when it holds no newline.
pub open spec fn cut_at(b: Seq<u8>, max: int) -> int {
    let safe = best_boundary(b, max);
    let nl = find_last_nl(b, safe);
    if nl >= 0 {
        nl
    } else {
        safe
    }
}

/// What remains after one chunking step: everything past the cut, with one
/// leading `\r\n` or `\n` dropped.
pub open spec fn rest_after(b: Seq<u8>, max: int) -> Seq<u8> {
    let rest0 = b.skip(cut_at(b, max));
    if rest0.len() >= 2 && rest0[0] == cr_byte() && rest0[1] == nl_byte() {
        rest0.skip(2)
    } else if rest0.len() >= 1 && rest0[0] == nl_byte() {
        rest0.skip(1)
    } else {
        rest0
    }
}

proof fn lemma_first_scalar_boundary(b: Seq<u8>)
    requires
        vstd::utf8::valid_utf8(b),
        b.len() > 0,
    ensures
        1 <= vstd::utf8::length_of_first_scalar(b) <= 4,
        vstd::utf8::length_of_first_scalar(b) <= b.len(),
        vstd::utf8::is_char_boundary(b, vstd::utf8::length_of_first_scalar(b)),
{
    broadcast use vstd::utf8::is_char_boundary_start_end_of_seq;

    let w = vstd::utf8::length_of_first_scalar(b);
    assert(vstd::utf8::valid_first_scalar(b));
    assert(1 <= w <= 4);
    assert(vstd::utf8::pop_first_scalar(b).len() == b.len() - w);
    assert(b.len() >= w);
    assert(vstd::utf8::valid_utf8(vstd::utf8::pop_first_scalar(b)));
    assert(vstd::utf8::is_char_boundary(vstd::utf8::pop_first_scalar(b), 0));
    assert(vstd::utf8::is_char_boundary(b, w));
}

proof fn lemma_best_boundary_at_least(b: Seq<u8>, i: int, e: int)
    requires
        0 <= e <= i,
        vstd::utf8::is_char_boundary(b, e),
    ensures
        best_boundary(b, i) >= e,
    decreases i,
{
    if i > e && !vstd::utf8::is_char_boundary(b, i) {
        lemma_best_boundary_at_least(b, i - 1, e);
    }
}

/// One chunking step makes progress: the rest is strictly shorter than the
/// text it came from.
proof fn lemma_rest_shorter(b: Seq<u8>, max: int)
    requires
        vstd::utf8::valid_utf8(b),
        4 <= max,
        b.len() > max,
    ensures
        0 <= cut_at(b, max) < b.len(),
        rest_after(b, max).len() < b.len(),
{
    lemma_first_scalar_boundary(b);
    let w = vstd::utf8::length_of_first_scalar(b);
    lemma_best_boundary_at_least(b, max, w);
    lemma_best_boundary(b, max);
    let safe = best_boundary(b, max);
    lemma_find_last_nl_bounds(b, safe);
    let cut = cut_at(b, max);
    if cut == 0 {
        assert(find_last_nl(b, safe) == 0);
        assert(b[0] == nl_byte());
        let rest0 = b.skip(0);
        assert(rest0 =~= b);
        assert(rest_after(b, max).len() < b.len());
    } else {
        assert(b.skip(cut).len() < b.len());
    }
}

/// The message split greedily into chunks of at most `max` bytes, cut at
/// newline boundaries where one falls inside the window and at UTF-8
/// character boundaries otherwise; the newline a cut lands on is dropped.
/// A message that already fits is one chunk, even when empty, and a
/// trailing newline leaves no empty final chunk behind.
pub open spec fn split_msg(b: Seq<u8>, max: int) -> Seq<Seq<u8>>
    decreases b.len(),
        when vstd::utf8::valid_utf8(b) && 4 <= max
    via split_msg_decreases
{
    if b.len() <= max {
        seq![b]
    } else {
        let rest = rest_after(b, max);
        seq![b.take(cut_at(b, max))] + (if rest.len() == 0 {
            Seq::empty()
        } else {
            split_msg(rest, max)
        })
    }
}

#[via_fn]
proof fn split_msg_decreases(b: Seq<u8>, max: int) {
    if b.len() > max {
        lemma_rest_shorter(b, max);
    }
}

proof fn lemma_ascii_one_boundary(b: Seq<u8>)
    requires
        vstd::utf8::valid_utf8(b),
        b.len() >= 1,
        b[0] < 0x80,
    ensures
        vstd::utf8::is_char_boundary(b, 1),
        vstd::utf8::length_of_first_scalar(b) == 1,
{
    broadcast use vstd::utf8::is_char_boundary_start_end_of_seq;

    assert(vstd::utf8::valid_first_scalar(b));
    assert(vstd::utf8::is_leading_byte_width_1(b[0]));
    assert(vstd::utf8::length_of_first_scalar(b) == 1);
    assert(vstd::utf8::is_char_boundary(vstd::utf8::pop_first_scalar(b), 0));
    assert(vstd::utf8::is_char_boundary(b, 1));
}

proof fn lemma_ascii_two_boundary(b: Seq<u8>)
    requires
        vstd::utf8::valid_utf8(b),
        b.len() >= 2,
        b[0] < 0x80,
        b[1] < 0x80,
    ensures
        vstd::utf8::is_char_boundary(b, 2),
{
    lemma_ascii_one_boundary(b);
    let rest = vstd::utf8::pop_first_scalar(b);
    assert(rest =~= b.skip(1));
    assert(vstd::utf8::valid_utf8(rest));
    lemma_ascii_one_boundary(rest);
    assert(vstd::utf8::is_char_boundary(b, 2));
}

/// The byte sequences of a list of string slices.
pub open spec fn slice_views(v: Seq<&str>) -> Seq<Seq<u8>> {
    Seq::new(v.len(), |i: int| v[i].spec_bytes())
}

/// Splits a message into chunks of at most `max_len` bytes, preferring to
/// cut at newline boundaries and never splitting a UTF-8 character. The
/// limit must leave room for one whole character.
pub fn split_message<'a>(text: &'a str, max_len: usize) -> (r: Vec<&'a str>)
    requires
        4 <= max_len,
    ensures
        slice_views(r@) == split_msg(text.spec_bytes(), max_len as int),
{
    broadcast use vstd::utf8::encode_utf8_valid_utf8;
    broadcast use vstd::utf8::valid_utf8_split;
    broadcast use vstd::utf8::is_char_boundary_start_end_of_seq;
    broadcast use vstd::slice::axiom_spec_len;

    let nb = text.as_bytes().len();
    if nb <= max_len {
        let mut one: Vec<&str> = Vec::new();
        one.push(text);
        proof {
            assert(slice_views(one@) =~= split_msg(text.spec_bytes(), max_len as int));
        }
        return one;
    }
    let mut chunks: Vec<&str> = Vec::new();
    let mut remaining: &str = text;
    while remaining.as_bytes().len() > max_len
        invariant
            4 <= max_len,
            split_msg(text.spec_bytes(), max_len as int) == slice_views(chunks@) + (
            if remaining.spec_bytes().len() == 0 {
                Seq::<Seq<u8>>::empty()
            } else {
                split_msg(remaining.spec_bytes(), max_len as int)
            }),
        decreases remaining.spec_bytes().len(),
    {
        let ghost rb = remaining.spec_bytes();
        proof {
            lemma_rest_shorter(rb, max_len as int);
            lemma_best_boundary(rb, max_len as int);
        }
        let head = crate::text::truncate_str(remaining, max_len);
        let safe_end = head.as_bytes().len();
        let b = remaining.as_bytes();
        let mut j: usize = 0;
        let mut nl_found: bool = false;
        let mut nl_at: usize = 0;
        while j < safe_end
            invariant
                j <= safe_end <= rb.len(),
                rb == remaining.spec_bytes(),
                b@ == rb,
                !nl_found ==> find_last_nl(rb, j as int) == -1,
                nl_found ==> find_last_nl(rb, j as int) == nl_at && nl_at < j,
            decreases safe_end - j,
        {
            if b[j] == 0x0a {
                nl_found = true;
                nl_at = j;
            }
            j = j + 1;
        }
        let cut = if nl_found {
            nl_at
        } else {
            safe_end
        };
        proof {
            lemma_find_last_nl_bounds(rb, safe_end as int);
            assert(cut as int == cut_at(rb, max_len as int));
            if nl_found {
                broadcast use vstd::utf8::is_char_boundary_iff_not_is_continuation_byte;

                assert(rb[cut as int] == nl_byte());
                assert(!vstd::utf8::is_continuation_byte(rb[cut as int]));
                assert(vstd::utf8::is_char_boundary(rb, cut as int));
            }
        }
        let pair = remaining.split_at(cut);
        chunks.push(pair.0);
        let rest = pair.1;
        let restb = rest.as_bytes();
        let stripped: &str = if restb.len() >= 2 && restb[0] == 0x0d && restb[1] == 0x0a {
            proof {
                lemma_ascii_two_boundary(rest.spec_bytes());
            }
            rest.split_at(2).1
        } else if restb.len() >= 1 && restb[0] == 0x0a {
            proof {
                lemma_ascii_one_boundary(rest.spec_bytes());
            }
            rest.split_at(1).1
        } else {
            rest
        };
        proof {
            assert(rest.spec_bytes() =~= rb.skip(cut as int));
            assert(stripped.spec_bytes() =~= rest_after(rb, max_len as int));
            assert(slice_views(chunks@) =~= slice_views(chunks@.drop_last()) + seq![
                rb.take(cut_at(rb, max_len as int)),
            ]);
            assert(slice_views(chunks@) + (if stripped.spec_bytes().len() == 0 {
                Seq::<Seq<u8>>::empty()
            } else {
                split_msg(stripped.spec_bytes(), max_len as int)
            }) =~= split_msg(text.spec_bytes(), max_len as int));
        }
        remaining = stripped;
    }
    if !remaining.is_empty() {
        chunks.push(remaining);
        proof {
            assert(split_msg(remaining.spec_bytes(), max_len as int) =~= seq![
                remaining.spec_bytes(),
            ]);
            assert(slice_views(chunks@) =~= slice_views(chunks@.drop_last()) + seq![
                remaining.spec_bytes(),
            ]);
            assert(slice_views(chunks@) =~= split_msg(text.spec_bytes(), max_len as int));
        }
    } else {
        proof {
            assert(remaining.spec_bytes() =~= Seq::<u8>::empty());
            assert(slice_views(chunks@) =~= split_msg(text.spec_bytes(), max_len as int));
        }
    }
    chunks
}

} // verus!
