//! The record of what one run of the tool wrote: its lines, tagged by the
//! stream they came from, and whether the diagnostic stream reported an error.

use vstd::prelude::*;
use vstd::string::*;
use crate::text::{contains, has_substring, text_views};

verus! {

/// The output stream a line was read from.
#[derive(Clone, Copy, Debug, PartialEq, Eq, Structural)]
pub enum Origin {
    /// The tool's normal output.
    Primary,
    /// The tool's diagnostic output.
    Diagnostic,
}

/// The name of the event that tells an observer of a line from `origin`.
pub open spec fn event_name(origin: Origin) -> Seq<char> {
    match origin {
        Origin::Primary => "progress-line"@,
        Origin::Diagnostic => "error-line"@,
    }
}

/// The word for a stream.
pub open spec fn origin_label(origin: Origin) -> Seq<char> {
    match origin {
        Origin::Primary => "primary"@,
        Origin::Diagnostic => "diagnostic"@,
    }
}

impl Origin {
    /// The word for this stream.
    pub fn label(&self) -> (word: String)
        ensures
            word@ == origin_label(*self),
    {
        match self {
            Origin::Primary => String::from_str("primary"),
            Origin::Diagnostic => String::from_str("diagnostic"),
        }
    }

    /// The name of the event that tells an observer of a line from this
    /// stream.
    pub fn event(&self) -> (name: String)
        ensures
            name@ == event_name(*self),
    {
        match self {
            Origin::Primary => String::from_str("progress-line"),
            Origin::Diagnostic => String::from_str("error-line"),
        }
    }
}

/// One line of output.
#[derive(Clone, Debug)]
pub struct OutputLine {
    pub origin: Origin,
    pub text: String,
    /// The position of this line among the lines of its own stream.
    pub index: usize,
}

/// What an output line holds.
pub struct OutputLineView {
    pub origin: Origin,
    pub text: Seq<char>,
    pub index: nat,
}

impl View for OutputLine {
    type V = OutputLineView;

    open spec fn view(&self) -> OutputLineView {
        OutputLineView { origin: self.origin, text: self.text@, index: self.index as nat }
    }
}

/// The views of a sequence of lines.
pub open spec fn line_views(lines: Seq<OutputLine>) -> Seq<OutputLineView> {
    lines.map_values(|line: OutputLine| line@)
}

/// The text that marks an error when it appears on the diagnostic stream.
pub open spec fn marker() -> Seq<char> {
    "ERROR:"@
}

/// The text put in front of a diagnostic line when a transcript is rendered.
pub open spec fn diagnostic_prefix() -> Seq<char> {
    "[stderr] "@
}

/// A line from the diagnostic stream that holds the marker.
pub open spec fn is_marker_line(line: OutputLineView) -> bool {
    line.origin == Origin::Diagnostic && has_substring(line.text, marker())
}

/// The number of lines that came from `origin`.
pub open spec fn stream_length(lines: Seq<OutputLineView>, origin: Origin) -> nat
    decreases lines.len(),
{
    if lines.len() == 0 {
        0
    } else {
        stream_length(lines.drop_last(), origin) + if lines.last().origin == origin {
            1nat
        } else {
            0nat
        }
    }
}

/// The texts of the lines that came from `origin`, in the order they were
/// recorded.
pub open spec fn stream_texts(lines: Seq<OutputLineView>, origin: Origin) -> Seq<Seq<char>>
    decreases lines.len(),
{
    if lines.len() == 0 {
        Seq::empty()
    } else if lines.last().origin == origin {
        stream_texts(lines.drop_last(), origin).push(lines.last().text)
    } else {
        stream_texts(lines.drop_last(), origin)
    }
}

/// How one line reads in a rendered transcript.
pub open spec fn rendered_line(line: OutputLineView) -> Seq<char> {
    match line.origin {
        Origin::Primary => line.text + "\n"@,
        Origin::Diagnostic => diagnostic_prefix() + line.text + "\n"@,
    }
}

/// The lines rendered one after the other.
pub open spec fn rendered(lines: Seq<OutputLineView>) -> Seq<char>
    decreases lines.len(),
{
    if lines.len() == 0 {
        Seq::empty()
    } else {
        rendered(lines.drop_last()) + rendered_line(lines.last())
    }
}

/// What a transcript holds.
pub struct TranscriptView {
    pub lines: Seq<OutputLineView>,
    pub saw_marker: bool,
}

/// Every line carries its position within its own stream, and the flag tells
/// whether some diagnostic line holds the marker.
pub open spec fn consistent(transcript: TranscriptView) -> bool {
    &&& forall|i: int|
        0 <= i < transcript.lines.len() ==> (#[trigger] transcript.lines[i]).index
            == stream_length(transcript.lines.take(i), transcript.lines[i].origin)
    &&& transcript.saw_marker == exists|i: int|
        0 <= i < transcript.lines.len() && is_marker_line(#[trigger] transcript.lines[i])
}

/// The lines seen for one work item, in the order they were recorded.
#[derive(Debug)]
pub struct Transcript {
    lines: Vec<OutputLine>,
    primary_lines: usize,
    diagnostic_lines: usize,
    saw_marker: bool,
}

impl View for Transcript {
    type V = TranscriptView;

    closed spec fn view(&self) -> TranscriptView {
        TranscriptView { lines: line_views(self.lines@), saw_marker: self.saw_marker }
    }
}

impl Transcript {
    /// The transcript is consistent and its counters agree with its lines.
    #[verifier::type_invariant]
    spec fn inv(&self) -> bool {
        &&& consistent(self@)
        &&& self.primary_lines == stream_length(self@.lines, Origin::Primary)
        &&& self.diagnostic_lines == stream_length(self@.lines, Origin::Diagnostic)
    }

    /// The transcript of an item that has written nothing yet.
    pub fn new() -> (transcript: Transcript)
        ensures
            transcript@.lines == Seq::<OutputLineView>::empty(),
            !transcript@.saw_marker,
            consistent(transcript@),
    {
        let lines: Vec<OutputLine> = Vec::new();
        Transcript { lines, primary_lines: 0, diagnostic_lines: 0, saw_marker: false }
    }

    /// Appends a line read from `origin` and returns its position within that
    /// stream.
    pub fn record(&mut self, origin: Origin, text: &str) -> (index: usize)
        ensures
            index == stream_length(old(self)@.lines, origin),
            final(self)@.lines == old(self)@.lines.push(
                OutputLineView { origin, text: text@, index: index as nat },
            ),
            final(self)@.saw_marker == (old(self)@.saw_marker || (origin == Origin::Diagnostic
                && has_substring(text@, marker()))),
            consistent(final(self)@),
    {
        let mut taken = Transcript::new();
        core::mem::swap(self, &mut taken);
        proof {
            use_type_invariant(&taken);
        }
        let ghost before = taken@;
        let Transcript { lines, primary_lines, diagnostic_lines, saw_marker } = taken;
        let mut lines = lines;
        let index = match origin {
            Origin::Primary => primary_lines,
            Origin::Diagnostic => diagnostic_lines,
        };
        let line = OutputLine { origin, text: String::from_str(text), index };
        let ghost added = line@;
        let marked = match origin {
            Origin::Primary => false,
            Origin::Diagnostic => contains(text, "ERROR:"),
        };
        lines.push(line);
        proof {
            assert(line_views(lines@) =~= before.lines.push(added));
            assert(before.lines.len() < lines.len());
            lemma_stream_length_bound(before.lines, origin);
            lemma_push_consistent(before, added);
            lemma_stream_length_push(before.lines, added, Origin::Primary);
            lemma_stream_length_push(before.lines, added, Origin::Diagnostic);
        }
        let (primary_lines, diagnostic_lines) = match origin {
            Origin::Primary => (primary_lines + 1, diagnostic_lines),
            Origin::Diagnostic => (primary_lines, diagnostic_lines + 1),
        };
        *self = Transcript {
            lines,
            primary_lines,
            diagnostic_lines,
            saw_marker: saw_marker || marked,
        };
        index
    }

    /// The number of lines recorded.
    pub fn len(&self) -> (count: usize)
        ensures
            count == self@.lines.len(),
    {
        self.lines.len()
    }

    /// Whether some diagnostic line held the marker.
    pub fn saw_marker(&self) -> (seen: bool)
        ensures
            seen == self@.saw_marker,
            consistent(self@),
    {
        proof {
            use_type_invariant(self);
        }
        self.saw_marker
    }

    /// The line at position `at`, where there is one.
    pub fn line(&self, at: usize) -> (line: Option<&OutputLine>)
        ensures
            match line {
                Some(line) => at < self@.lines.len() && line@ == self@.lines[at as int],
                None => at >= self@.lines.len(),
            },
    {
        if at < self.lines.len() {
            Some(&self.lines[at])
        } else {
            None
        }
    }

    /// The texts of the lines that came from `origin`, in the order they were
    /// recorded.
    pub fn stream(&self, origin: Origin) -> (texts: Vec<String>)
        ensures
            text_views(texts@) == stream_texts(self@.lines, origin),
    {
        let mut texts: Vec<String> = Vec::new();
        let mut i: usize = 0;
        while i < self.lines.len()
            invariant
                i <= self.lines.len(),
                text_views(texts@) == stream_texts(self@.lines.take(i as int), origin),
            decreases self.lines.len() - i,
        {
            let line = &self.lines[i];
            proof {
                let lines = self@.lines;
                assert(lines.take(i + 1).drop_last() =~= lines.take(i as int));
            }
            if line.origin == origin {
                texts.push(line.text.clone());
            }
            i += 1;
        }
        proof {
            assert(self@.lines.take(i as int) =~= self@.lines);
        }
        texts
    }

    /// The transcript as text: one line per recorded line, diagnostic lines
    /// behind their prefix.
    pub fn render(&self) -> (text: String)
        ensures
            text@ == rendered(self@.lines),
    {
        let mut text = String::new();
        let mut i: usize = 0;
        while i < self.lines.len()
            invariant
                i <= self.lines.len(),
                text@ == rendered(self@.lines.take(i as int)),
            decreases self.lines.len() - i,
        {
            let line = &self.lines[i];
            match line.origin {
                Origin::Primary => {},
                Origin::Diagnostic => {
                    text.append("[stderr] ");
                },
            }
            text.append(line.text.as_str());
            text.append("\n");
            proof {
                let lines = self@.lines;
                assert(lines.take(i + 1).drop_last() =~= lines.take(i as int));
            }
            i += 1;
        }
        proof {
            assert(self@.lines.take(i as int) =~= self@.lines);
        }
        text
    }
}

/// A stream is never longer than the transcript that holds it.
pub proof fn lemma_stream_length_bound(lines: Seq<OutputLineView>, origin: Origin)
    ensures
        stream_length(lines, origin) <= lines.len(),
    decreases lines.len(),
{
    if lines.len() > 0 {
        lemma_stream_length_bound(lines.drop_last(), origin);
    }
}

/// Appending a line lengthens its own stream by one and no other.
pub proof fn lemma_stream_length_push(
    lines: Seq<OutputLineView>,
    line: OutputLineView,
    origin: Origin,
)
    ensures
        stream_length(lines.push(line), origin) == stream_length(lines, origin) + if line.origin
            == origin {
            1nat
        } else {
            0nat
        },
{
    assert(lines.push(line).drop_last() =~= lines);
}

/// Appending a line that carries its position keeps a transcript consistent.
pub proof fn lemma_push_consistent(before: TranscriptView, line: OutputLineView)
    requires
        consistent(before),
        line.index == stream_length(before.lines, line.origin),
    ensures
        consistent(
            TranscriptView {
                lines: before.lines.push(line),
                saw_marker: before.saw_marker || is_marker_line(line),
            },
        ),
{
    let after = before.lines.push(line);
    assert forall|i: int| 0 <= i < after.len() implies (#[trigger] after[i]).index
        == stream_length(after.take(i), after[i].origin) by {
        if i < before.lines.len() {
            assert(after.take(i) =~= before.lines.take(i));
        } else {
            assert(after.take(i) =~= before.lines);
        }
    }
    if before.saw_marker || is_marker_line(line) {
        if is_marker_line(line) {
            assert(is_marker_line(after[after.len() - 1]));
        } else {
            let i = choose|i: int|
                0 <= i < before.lines.len() && is_marker_line(#[trigger] before.lines[i]);
            assert(is_marker_line(after[i]));
        }
    }
}

/// Recording a line appends its text to the texts of its own stream and
/// leaves the texts of the other stream as they were.
pub proof fn lemma_record_extends_stream(
    lines: Seq<OutputLineView>,
    line: OutputLineView,
    origin: Origin,
)
    ensures
        stream_texts(lines.push(line), origin) == if line.origin == origin {
            stream_texts(lines, origin).push(line.text)
        } else {
            stream_texts(lines, origin)
        },
{
    assert(lines.push(line).drop_last() =~= lines);
}

/// A stream has as many texts as it has lines.
pub proof fn lemma_stream_texts_len(lines: Seq<OutputLineView>, origin: Origin)
    ensures
        stream_texts(lines, origin).len() == stream_length(lines, origin),
    decreases lines.len(),
{
    if lines.len() > 0 {
        lemma_stream_texts_len(lines.drop_last(), origin);
    }
}

/// A longer prefix of a transcript holds at least as much of each stream, and
/// holds the texts of the shorter prefix at the same positions.
pub proof fn lemma_stream_prefix(lines: Seq<OutputLineView>, origin: Origin, i: int, j: int)
    requires
        0 <= i <= j <= lines.len(),
    ensures
        stream_length(lines.take(i), origin) <= stream_length(lines.take(j), origin),
        stream_texts(lines.take(i), origin).is_prefix_of(stream_texts(lines.take(j), origin)),
    decreases j - i,
{
    if i < j {
        lemma_stream_prefix(lines, origin, i, j - 1);
        assert(lines.take(j).drop_last() =~= lines.take(j - 1));
    }
}

/// Within one stream, lines keep the order in which they were recorded: of two
/// lines of the same stream, the one recorded later has the greater position.
pub proof fn lemma_stream_order(transcript: TranscriptView, i: int, j: int)
    requires
        consistent(transcript),
        0 <= i < j < transcript.lines.len(),
        transcript.lines[i].origin == transcript.lines[j].origin,
    ensures
        transcript.lines[i].index < transcript.lines[j].index,
{
    let lines = transcript.lines;
    let origin = lines[i].origin;
    lemma_stream_prefix(lines, origin, i + 1, j);
    assert(lines.take(i + 1).drop_last() =~= lines.take(i));
}

/// The position a line carries is its place among the texts of its stream.
pub proof fn lemma_stream_position(transcript: TranscriptView, i: int)
    requires
        consistent(transcript),
        0 <= i < transcript.lines.len(),
    ensures
        transcript.lines[i].index < stream_length(transcript.lines, transcript.lines[i].origin),
        stream_texts(transcript.lines, transcript.lines[i].origin)[transcript.lines[i].index as int]
            == transcript.lines[i].text,
{
    let lines = transcript.lines;
    let origin = lines[i].origin;
    lemma_stream_prefix(lines, origin, i + 1, lines.len() as int);
    assert(lines.take(lines.len() as int) =~= lines);
    assert(lines.take(i + 1).drop_last() =~= lines.take(i));
    lemma_stream_texts_len(lines.take(i), origin);
    let short = stream_texts(lines.take(i + 1), origin);
    let full = stream_texts(lines, origin);
    let k = lines[i].index as int;
    assert(full.subrange(0, short.len() as int)[k] == full[k]);
}

} // verus!
