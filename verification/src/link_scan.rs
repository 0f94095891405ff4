//! Finding the links of a Markdown text and the lines they start on.
use vstd::prelude::*;

verus! {

/// The number of newline bytes among the first `o` bytes of `bs` (offsets
/// past the end count the whole text).
pub open spec fn newlines_before(bs: Seq<u8>, o: int) -> nat
    decreases o,
{
    if o <= 0 {
        0
    } else if o > bs.len() {
        newlines_before(bs, bs.len() as int)
    } else {
        newlines_before(bs, o - 1) + if bs[o - 1] == 10 { 1nat } else { 0nat }
    }
}

/// The 1-based line on which the byte at offset `o` lies.
pub open spec fn line_at(bs: Seq<u8>, o: int) -> int {
    newlines_before(bs, o) as int + 1
}

/// More bytes hold at least as many newlines.
proof fn lemma_newlines_monotone(bs: Seq<u8>, a: int, b: int)
    requires
        a <= b,
    ensures
        newlines_before(bs, a) <= newlines_before(bs, b),
    decreases b - a,
{
    if a < b {
        if b > bs.len() {
            if a <= bs.len() {
                lemma_newlines_monotone(bs, a, bs.len() as int);
            }
        } else if b > 0 {
            lemma_newlines_monotone(bs, a, b - 1);
        }
    }
}

/// Lines start at 1 and never go down as the offset grows.
pub proof fn lemma_line_at_monotone(bs: Seq<u8>, o1: int, o2: int)
    requires
        o1 <= o2,
    ensures
        1 <= line_at(bs, o1) <= line_at(bs, o2),
{
    lemma_newlines_monotone(bs, o1, o2);
}

/// The first byte is on line 1, and each byte after a newline is one line
/// further down; any other byte leaves the line as it was.
pub proof fn lemma_line_at_steps(bs: Seq<u8>, o: int)
    requires
        0 <= o < bs.len(),
    ensures
        line_at(bs, 0) == 1,
        line_at(bs, o + 1) == line_at(bs, o) + if bs[o] == 10 { 1int } else { 0int },
{
}

/// The byte offsets of the newline bytes of `bs`, in increasing order.
pub open spec fn newline_offsets(bs: Seq<u8>) -> Seq<int>
    decreases bs.len(),
{
    if bs.len() == 0 {
        Seq::empty()
    } else {
        let init = newline_offsets(bs.drop_last());
        if bs.last() == 10 {
            init.push(bs.len() - 1)
        } else {
            init
        }
    }
}

/// The newline offsets of a text are strictly increasing, lie inside it and
/// each marks a newline byte; every newline byte is among them, and there
/// are as many as the text holds newlines.
pub proof fn lemma_newline_offsets(bs: Seq<u8>)
    ensures
        forall|k: int|
            0 <= k < newline_offsets(bs).len() ==> {
                &&& 0 <= #[trigger] newline_offsets(bs)[k] < bs.len()
                &&& bs[newline_offsets(bs)[k]] == 10
            },
        forall|i: int, j: int|
            0 <= i < j < newline_offsets(bs).len() ==> newline_offsets(bs)[i]
                < newline_offsets(bs)[j],
        forall|o: int| 0 <= o < bs.len() && bs[o] == 10 ==> newline_offsets(bs).contains(o),
        newline_offsets(bs).len() == newlines_before(bs, bs.len() as int),
    decreases bs.len(),
{
    if bs.len() > 0 {
        let init = bs.drop_last();
        lemma_newline_offsets(init);
        lemma_newlines_before_prefix(init, bs, init.len() as int);
        let offs = newline_offsets(bs);
        let io = newline_offsets(init);
        assert forall|k: int| 0 <= k < io.len() implies io[k] < init.len() && bs[io[k]] == 10 by {
            assert(init[io[k]] == bs[io[k]]);
        }
        assert forall|o: int| 0 <= o < bs.len() && bs[o] == 10 implies offs.contains(o) by {
            if o < init.len() {
                assert(init[o] == bs[o]);
                assert(io.contains(o));
                let w = choose|w: int| 0 <= w < io.len() && io[w] == o;
                assert(offs[w] == o);
            } else {
                assert(offs[offs.len() - 1] == o);
            }
        }
    }
}

/// Counting the first `m` bytes of `p` is counting them in `bs` when `p`
/// begins as `bs` does.
proof fn lemma_newlines_before_prefix(p: Seq<u8>, bs: Seq<u8>, m: int)
    requires
        0 <= m <= p.len() <= bs.len(),
        forall|i: int| 0 <= i < p.len() ==> p[i] == bs[i],
    ensures
        newlines_before(p, m) == newlines_before(bs, m),
    decreases m,
{
    if m > 0 {
        lemma_newlines_before_prefix(p, bs, m - 1);
        assert(p[m - 1] == bs[m - 1]);
    }
}

/// Byte offsets of the newlines of a text, for turning offsets into lines.
pub struct LineIndex {
    newlines: Vec<usize>,
    text: Ghost<Seq<u8>>,
}

impl LineIndex {
    /// The bytes the index was built from.
    pub closed spec fn bytes(&self) -> Seq<u8> {
        self.text@
    }

    /// The byte offsets that the index holds, in order.
    pub closed spec fn offsets(&self) -> Seq<int> {
        self.newlines@.map_values(|o: usize| o as int)
    }

    /// The index lists, in increasing order, exactly the newline offsets.
    pub closed spec fn wf(&self) -> bool {
        let bs = self.text@;
        let nl = self.newlines@;
        &&& forall|k: int|
            0 <= k < nl.len() ==> {
                &&& #[trigger] nl[k] < bs.len()
                &&& bs[nl[k] as int] == 10
                &&& newlines_before(bs, nl[k] as int) == k
            }
        &&& forall|i: int, j: int| 0 <= i < j < nl.len() ==> nl[i] < nl[j]
        &&& newlines_before(bs, bs.len() as int) == nl.len()
        &&& nl.len() < usize::MAX
    }

    /// Indexes the newlines of `contents`.
    pub fn new(contents: &str) -> (idx: LineIndex)
        requires
            vstd::utf8::encode_utf8(contents@).len() < usize::MAX,
        ensures
            idx.wf(),
            idx.bytes() == vstd::utf8::encode_utf8(contents@),
            idx.offsets() == newline_offsets(idx.bytes()),
    {
        let bytes = contents.as_bytes();
        let ghost bs = bytes@;
        let mut newlines: Vec<usize> = Vec::new();
        let mut i: usize = 0;
        while i < bytes.len()
            invariant
                bs == bytes@,
                bs.len() < usize::MAX,
                i <= bs.len(),
                newlines_before(bs, i as int) == newlines@.len(),
                forall|k: int|
                    0 <= k < newlines@.len() ==> {
                        &&& #[trigger] newlines@[k] < i
                        &&& bs[newlines@[k] as int] == 10
                        &&& newlines_before(bs, newlines@[k] as int) == k
                    },
                forall|a: int, b: int|
                    0 <= a < b < newlines@.len() ==> newlines@[a] < newlines@[b],
                newlines@.len() <= i,
                newlines@.map_values(|o: usize| o as int) == newline_offsets(
                    bs.subrange(0, i as int),
                ),
            decreases bs.len() - i,
        {
            let ghost before = newlines@.map_values(|o: usize| o as int);
            assert(bs.subrange(0, i + 1 as int).drop_last() =~= bs.subrange(0, i as int));
            if bytes[i] == 10 {
                newlines.push(i);
                assert(newlines@.map_values(|o: usize| o as int) =~= before.push(i as int));
            } else {
                assert(newlines@.map_values(|o: usize| o as int) =~= before);
            }
            i = i + 1;
        }
        assert(bs.subrange(0, bs.len() as int) =~= bs);
        LineIndex { newlines, text: Ghost(bs) }
    }

    /// The 1-based line of the byte at `byte_offset`: one more than the
    /// number of newlines before it.
    pub fn line_number(&self, byte_offset: usize) -> (line: usize)
        requires
            self.wf(),
        ensures
            line == line_at(self.bytes(), byte_offset as int),
    {
        let ghost bs = self.text@;
        let n = self.newlines.len();
        let mut lo: usize = 0;
        let mut hi: usize = n;
        while lo < hi
            invariant
                self.wf(),
                bs == self.text@,
                n == self.newlines@.len(),
                lo <= hi <= n,
                forall|j: int| 0 <= j < lo ==> self.newlines@[j] < byte_offset,
                forall|j: int| hi <= j < n ==> self.newlines@[j] >= byte_offset,
            decreases hi - lo,
        {
            let mid = lo + (hi - lo) / 2;
            if self.newlines[mid] < byte_offset {
                assert forall|j: int| 0 <= j < mid + 1 implies self.newlines@[j] < byte_offset by {
                    if j < mid {
                        assert(self.newlines@[j] < self.newlines@[mid as int]);
                    }
                }
                lo = mid + 1;
            } else {
                assert forall|j: int| mid <= j < n implies self.newlines@[j] >= byte_offset by {
                    if j > mid {
                        assert(self.newlines@[mid as int] < self.newlines@[j]);
                    }
                }
                hi = mid;
            }
        }
        proof {
            let k = lo as int;
            let o = byte_offset as int;
            let nl = self.newlines@;
            if k < n {
                assert(nl[k] < bs.len());
                lemma_newlines_monotone(bs, o, nl[k] as int);
            } else {
                if o <= bs.len() {
                    lemma_newlines_monotone(bs, o, bs.len() as int);
                }
            }
            if k > 0 {
                let p = nl[k - 1] as int;
                assert(p < bs.len() && bs[p] == 10);
                assert(newlines_before(bs, p + 1) == newlines_before(bs, p) + 1);
                lemma_newlines_monotone(bs, p + 1, o);
            }
            assert(newlines_before(bs, o) == k);
        }
        lo + 1
    }
}

/// A Markdown event as the contracts see it.
pub enum EventView {
    LinkStart { destination: Seq<char>, offset: usize },
    Other,
}

/// A Markdown parser event: the start of a link, with its destination and
/// the byte offset where the link begins, or any other event.
pub enum MarkdownEvent {
    LinkStart { destination: String, offset: usize },
    Other,
}

impl View for MarkdownEvent {
    type V = EventView;

    open spec fn view(&self) -> EventView {
        match self {
            MarkdownEvent::LinkStart { destination, offset } => EventView::LinkStart {
                destination: destination@,
                offset: *offset,
            },
            MarkdownEvent::Other => EventView::Other,
        }
    }
}

/// The events that `pulldown_cmark` reports for a Markdown text, in order.
pub uninterp spec fn markdown_events(text: Seq<char>) -> Seq<EventView>;

/// `pulldown_cmark::Parser::new(text).into_offset_iter()`: each event of the
/// CommonMark parse of `text`, a link start carrying its destination URL and
/// the start of its source range. The result is a function of `text` alone;
/// nothing more is claimed of it.
#[verifier::external_body]
fn parse_markdown_events(text: &str) -> (events: Vec<MarkdownEvent>)
    ensures
        events@.map_values(|e: MarkdownEvent| e@) == markdown_events(text@),
{
    pulldown_cmark::Parser::new(text).into_offset_iter().map(|(event, range)| match event {
        pulldown_cmark::Event::Start(pulldown_cmark::Tag::Link { dest_url, .. }) => {
            MarkdownEvent::LinkStart { destination: dest_url.to_string(), offset: range.start }
        },
        _ => MarkdownEvent::Other,
    }).collect()
}

/// A link found in a Markdown text: its raw destination and 1-based line.
pub struct LinkOccurrence {
    pub destination: String,
    pub line: usize,
}

/// A link occurrence as the contracts see it.
pub struct OccurrenceView {
    pub destination: Seq<char>,
    pub line: int,
}

impl View for LinkOccurrence {
    type V = OccurrenceView;

    open spec fn view(&self) -> OccurrenceView {
        OccurrenceView { destination: self.destination@, line: self.line as int }
    }
}

/// The link starts among `events`, in order, with the lines of their offsets
/// in the text `bs`.
pub open spec fn link_occurrences_of(events: Seq<EventView>, bs: Seq<u8>) -> Seq<OccurrenceView>
    decreases events.len(),
{
    if events.len() == 0 {
        Seq::empty()
    } else {
        let init = link_occurrences_of(events.drop_last(), bs);
        match events.last() {
            EventView::LinkStart { destination, offset } => init.push(
                OccurrenceView { destination, line: line_at(bs, offset as int) },
            ),
            EventView::Other => init,
        }
    }
}

/// The link starts among `events`, in order, each with the line of its
/// offset in the text that `idx` indexes.
pub fn occurrences_from_events(events: &Vec<MarkdownEvent>, idx: &LineIndex) -> (links: Vec<
    LinkOccurrence,
>)
    requires
        idx.wf(),
    ensures
        links@.map_values(|l: LinkOccurrence| l@) == link_occurrences_of(
            events@.map_values(|e: MarkdownEvent| e@),
            idx.bytes(),
        ),
{
    let ghost evs = events@.map_values(|e: MarkdownEvent| e@);
    let ghost bs = idx.bytes();
    let mut links: Vec<LinkOccurrence> = Vec::new();
    let mut i: usize = 0;
    assert(evs.subrange(0, 0) =~= Seq::<EventView>::empty());
    assert(links@.map_values(|l: LinkOccurrence| l@) =~= Seq::<OccurrenceView>::empty());
    while i < events.len()
        invariant
            idx.wf(),
            bs == idx.bytes(),
            evs == events@.map_values(|e: MarkdownEvent| e@),
            i <= events@.len(),
            links@.map_values(|l: LinkOccurrence| l@) == link_occurrences_of(
                evs.subrange(0, i as int),
                bs,
            ),
        decreases events@.len() - i,
    {
        let ghost acc = links@.map_values(|l: LinkOccurrence| l@);
        assert(evs.subrange(0, i + 1 as int).drop_last() =~= evs.subrange(0, i as int));
        assert(evs.subrange(0, i + 1 as int).last() == evs[i as int]);
        match &events[i] {
            MarkdownEvent::LinkStart { destination, offset } => {
                let line = idx.line_number(*offset);
                links.push(LinkOccurrence { destination: destination.clone(), line });
                assert(links@.map_values(|l: LinkOccurrence| l@) =~= acc.push(
                    OccurrenceView { destination: destination@, line: line_at(bs, *offset as int) },
                ));
            },
            MarkdownEvent::Other => {},
        }
        i = i + 1;
    }
    assert(evs.subrange(0, evs.len() as int) =~= evs);
    links
}

/// The links of a Markdown text, in document order, each with the line on
/// which it starts.
pub fn link_occurrences(contents: &str) -> (links: Vec<LinkOccurrence>)
    requires
        vstd::utf8::encode_utf8(contents@).len() < usize::MAX,
    ensures
        links@.map_values(|l: LinkOccurrence| l@) == link_occurrences_of(
            markdown_events(contents@),
            vstd::utf8::encode_utf8(contents@),
        ),
{
    let line_index = LineIndex::new(contents);
    let events = parse_markdown_events(contents);
    occurrences_from_events(&events, &line_index)
}

} // verus!
