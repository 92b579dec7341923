//! Lossless aggregation of a streamed completion response. The stream arrives
//! as a finite sequence of events; a decoded event carries the partial text of
//! each parallel choice, in emission order, and a failed event is skipped
//! without aborting the call. Aggregation concatenates every fragment in
//! arrival order, with no re-ordering and no truncation.

use vstd::prelude::*;

verus! {

/// One event of a completion stream, as handed in by the transport: either a
/// decoded response chunk with the partial text of each returned choice, or a
/// fragment that failed to decode, carrying the diagnostic text.
pub enum StreamEvent {
    Chunk(Vec<String>),
    DecodeError(String),
}

/// The concatenation of the fragments, in order.
pub open spec fn concat_frags(frags: Seq<Seq<char>>) -> Seq<char>
    decreases frags.len(),
{
    if frags.len() == 0 {
        Seq::empty()
    } else {
        concat_frags(frags.drop_last()) + frags.last()
    }
}

/// The fragments an event contributes: a decoded chunk contributes its
/// choices' texts in order; a decode failure contributes nothing.
pub open spec fn event_frags(e: StreamEvent) -> Seq<Seq<char>> {
    match e {
        StreamEvent::Chunk(texts) => texts@.map_values(|t: String| t@),
        StreamEvent::DecodeError(_) => Seq::empty(),
    }
}

/// The aggregate text of a whole stream: every decoded fragment, in arrival
/// order.
pub open spec fn stream_text(events: Seq<StreamEvent>) -> Seq<char>
    decreases events.len(),
{
    if events.len() == 0 {
        Seq::empty()
    } else {
        stream_text(events.drop_last()) + concat_frags(event_frags(events.last()))
    }
}

/// Concatenates the fragments of one decoded chunk, in order.
pub fn aggregate_fragments(frags: &Vec<String>) -> (r: String)
    ensures
        r@ == concat_frags(frags@.map_values(|t: String| t@)),
{
    let ghost views = frags@.map_values(|t: String| t@);
    let mut acc = String::new();
    let mut i: usize = 0;
    while i < frags.len()
        invariant
            0 <= i <= frags@.len(),
            views == frags@.map_values(|t: String| t@),
            acc@ == concat_frags(views.take(i as int)),
        decreases frags@.len() - i,
    {
        acc.append(frags[i].as_str());
        proof {
            assert(views.take(i + 1).drop_last() =~= views.take(i as int));
            assert(views.take(i + 1).last() == views[i as int]);
        }
        i += 1;
    }
    proof {
        assert(views.take(views.len() as int) =~= views);
    }
    acc
}

/// Aggregates a whole stream: concatenates the fragments of every decoded
/// chunk in arrival order, skipping decode failures, never truncating.
pub fn aggregate_stream(events: &Vec<StreamEvent>) -> (r: String)
    ensures
        r@ == stream_text(events@),
{
    let mut acc = String::new();
    let mut i: usize = 0;
    while i < events.len()
        invariant
            0 <= i <= events@.len(),
            acc@ == stream_text(events@.take(i as int)),
        decreases events@.len() - i,
    {
        match &events[i] {
            StreamEvent::Chunk(texts) => {
                let piece = aggregate_fragments(texts);
                acc.append(piece.as_str());
            },
            StreamEvent::DecodeError(_) => {
                proof {
                    assert(acc@ + concat_frags(event_frags(events@[i as int])) =~= acc@);
                }
            },
        }
        proof {
            assert(events@.take(i + 1).drop_last() =~= events@.take(i as int));
            assert(events@.take(i + 1).last() == events@[i as int]);
        }
        i += 1;
    }
    proof {
        assert(events@.take(events@.len() as int) =~= events@);
    }
    acc
}

/// Concatenation distributes over appending fragment lists.
pub proof fn lemma_concat_frags_add(a: Seq<Seq<char>>, b: Seq<Seq<char>>)
    ensures
        concat_frags(a + b) == concat_frags(a) + concat_frags(b),
    decreases b.len(),
{
    if b.len() == 0 {
        assert(a + b =~= a);
        assert(concat_frags(a) + concat_frags(b) =~= concat_frags(a));
    } else {
        lemma_concat_frags_add(a, b.drop_last());
        assert((a + b).drop_last() =~= a + b.drop_last());
        assert((a + b).last() == b.last());
        assert(
            (concat_frags(a) + concat_frags(b.drop_last())) + b.last()
                =~= concat_frags(a) + (concat_frags(b.drop_last()) + b.last())
        );
    }
}

/// Aggregation is independent of fragment boundaries: splitting one fragment
/// into two adjacent fragments does not change the aggregate, so N fragments
/// `f1..fN` of one choice always yield exactly `f1 + ... + fN`.
pub proof fn lemma_fragment_split(
    pre: Seq<Seq<char>>,
    a: Seq<char>,
    b: Seq<char>,
    post: Seq<Seq<char>>,
)
    ensures
        concat_frags(pre + seq![a + b] + post) == concat_frags(pre + seq![a] + seq![b] + post),
{
    lemma_concat_frags_add(pre + seq![a + b], post);
    lemma_concat_frags_add(pre, seq![a + b]);
    lemma_concat_frags_add(pre + seq![a] + seq![b], post);
    lemma_concat_frags_add(pre + seq![a], seq![b]);
    lemma_concat_frags_add(pre, seq![a]);
    lemma_concat_singleton(a + b);
    lemma_concat_singleton(a);
    lemma_concat_singleton(b);
    assert(concat_frags(pre + seq![a + b]) =~= concat_frags(pre + seq![a] + seq![b]));
}

/// A single fragment aggregates to itself.
proof fn lemma_concat_singleton(x: Seq<char>)
    ensures
        concat_frags(seq![x]) == x,
{
    assert(seq![x].drop_last() =~= Seq::<Seq<char>>::empty());
    assert(seq![x].last() == x);
    assert(concat_frags(Seq::<Seq<char>>::empty()) == Seq::<char>::empty());
    assert(Seq::<char>::empty() + x =~= x);
}

} // verus!
