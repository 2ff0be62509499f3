//! Finds the fenced `cargo` code block in a markdown body.

use pulldown_cmark::{CodeBlockKind, Event, Options, Parser, Tag};
use vstd::prelude::*;

verus! {

/// What a markdown event is, as far as the locator cares.
#[derive(Clone, Copy, Debug, PartialEq, Eq, Structural)]
pub enum MdTag {
    /// The opening fence of a fenced code block.
    FenceStart,
    /// The closing fence of a fenced code block.
    FenceEnd,
    /// A run of text.
    Text,
    /// Anything else.
    Other,
}

/// One markdown event with its byte range in the parsed body.
#[derive(Clone, Debug)]
pub struct MdEvent {
    pub tag: MdTag,
    /// The info string of a fence; empty for other events.
    pub info: String,
    pub start: usize,
    pub end: usize,
}

pub struct MdEventView {
    pub tag: MdTag,
    pub info: Seq<char>,
    pub start: usize,
    pub end: usize,
}

impl View for MdEvent {
    type V = MdEventView;

    open spec fn view(&self) -> MdEventView {
        MdEventView { tag: self.tag, info: self.info@, start: self.start, end: self.end }
    }
}

pub open spec fn event_views(v: Seq<MdEvent>) -> Seq<MdEventView> {
    v.map_values(|e: MdEvent| e@)
}

/// The events that pulldown-cmark gives for a markdown body.
pub uninterp spec fn markdown_events_of(doc: Seq<char>) -> Seq<MdEventView>;

/// Relies on `pulldown_cmark::Parser::new_ext` with every option and its
/// offset iterator: the events depend on the body alone.
#[verifier::external_body]
pub(crate) fn markdown_events(doc: &str) -> (r: Vec<MdEvent>)
    ensures
        event_views(r@) == markdown_events_of(doc@),
{
    Parser::new_ext(doc, Options::all()).into_offset_iter().map(|(event, span)| {
        let (tag, info) = match event {
            Event::Start(Tag::CodeBlock(CodeBlockKind::Fenced(k))) => (MdTag::FenceStart, k.to_string()),
            Event::End(Tag::CodeBlock(CodeBlockKind::Fenced(k))) => (MdTag::FenceEnd, k.to_string()),
            Event::Text(_) => (MdTag::Text, String::new()),
            _ => (MdTag::Other, String::new()),
        };
        MdEvent { tag, info, start: span.start, end: span.end }
    }).collect()
}

/// The progress of the scan for the manifest block.
#[derive(Clone, Copy, Debug, PartialEq, Eq, Structural)]
pub enum LocState {
    Idle,
    Start,
    Text(usize, usize),
    End(usize, usize),
}

/// The info string that marks the manifest block.
pub open spec fn marker() -> Seq<char> {
    seq!['c', 'a', 'r', 'g', 'o']
}

/// One step of the automaton: `None -> Start` on an opening `cargo` fence,
/// `Start -> Text` on the first text, `Text -> End` on a closing `cargo`
/// fence; every other event leaves the state as it is.
pub open spec fn step(s: LocState, e: MdEventView) -> LocState {
    match s {
        LocState::Idle => if e.tag == MdTag::FenceStart && e.info == marker() {
            LocState::Start
        } else {
            s
        },
        LocState::Start => if e.tag == MdTag::Text {
            LocState::Text(e.start, e.end)
        } else {
            s
        },
        LocState::Text(a, b) => if e.tag == MdTag::FenceEnd && e.info == marker() {
            LocState::End(a, b)
        } else {
            s
        },
        LocState::End(_, _) => s,
    }
}

/// The state after all of `events`, from `None`.
pub open spec fn run(events: Seq<MdEventView>) -> LocState
    decreases events.len(),
{
    if events.len() == 0 {
        LocState::Idle
    } else {
        step(run(events.drop_last()), events.last())
    }
}

/// The byte range of the manifest block's text, if the automaton ends in `End`.
pub open spec fn located(events: Seq<MdEventView>) -> Option<(usize, usize)> {
    match run(events) {
        LocState::End(a, b) => Some((a, b)),
        _ => None,
    }
}

fn is_marker(s: &str) -> (r: bool)
    ensures
        r == (s@ == marker()),
{
    if s.unicode_len() != 5 {
        return false;
    }
    let r = s.get_char(0) == 'c' && s.get_char(1) == 'a' && s.get_char(2) == 'r' && s.get_char(3)
        == 'g' && s.get_char(4) == 'o';
    proof {
        if r {
            assert(s@ =~= marker());
        }
    }
    r
}

/// Folds the automaton over `events` and returns the byte range of the text of
/// the first complete `cargo` block.
pub fn locate_manifest_block(events: &Vec<MdEvent>) -> (r: Option<(usize, usize)>)
    ensures
        r == located(event_views(events@)),
{
    let mut state = LocState::Idle;
    let mut i: usize = 0;
    while i < events.len()
        invariant
            i <= events@.len(),
            state == run(event_views(events@).take(i as int)),
        decreases events@.len() - i,
    {
        let e = &events[i];
        let fence_start = e.tag == MdTag::FenceStart;
        let fence_end = e.tag == MdTag::FenceEnd;
        let next = match state {
            LocState::Idle => if fence_start && is_marker(e.info.as_str()) {
                LocState::Start
            } else {
                state
            },
            LocState::Start => if e.tag == MdTag::Text {
                LocState::Text(e.start, e.end)
            } else {
                state
            },
            LocState::Text(a, b) => if fence_end && is_marker(e.info.as_str()) {
                LocState::End(a, b)
            } else {
                state
            },
            LocState::End(_, _) => state,
        };
        proof {
            let ev = event_views(events@);
            assert(ev.take(i + 1).drop_last() =~= ev.take(i as int));
            assert(ev.take(i + 1).last() == e@);
        }
        state = next;
        i = i + 1;
    }
    proof {
        assert(event_views(events@).take(events@.len() as int) =~= event_views(events@));
    }
    match state {
        LocState::End(a, b) => Some((a, b)),
        _ => None,
    }
}

/// Once a block has been completed, later events change nothing: when a body
/// holds several `cargo` blocks, the first one is the one located.
pub proof fn lemma_first_block_wins(first: Seq<MdEventView>, rest: Seq<MdEventView>)
    requires
        located(first) is Some,
    ensures
        located(first + rest) == located(first),
    decreases rest.len(),
{
    if rest.len() == 0 {
        assert(first + rest =~= first);
    } else {
        lemma_first_block_wins(first, rest.drop_last());
        assert((first + rest).drop_last() =~= first + rest.drop_last());
    }
}

} // verus!
