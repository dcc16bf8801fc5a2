//! Frames: the parts of the multi-part messages a worker sends to the sink,
//! and how an output artifact is cut into them.
use vstd::prelude::*;
use vstd::string::*;
use vstd::utf8::*;

verus! {

/// One part of a multi-part message. `more` marks that another part of the
/// same message follows.
pub struct Frame {
    pub data: Vec<u8>,
    pub more: bool,
}

/// What a frame carries.
pub struct FrameModel {
    pub data: Seq<u8>,
    pub more: bool,
}

impl View for Frame {
    type V = FrameModel;

    open spec fn view(&self) -> FrameModel {
        FrameModel { data: self.data@, more: self.more }
    }
}

/// The models of a sequence of frames.
pub open spec fn frames_view(frames: Seq<Frame>) -> Seq<FrameModel> {
    frames.map_values(|f: Frame| f@)
}

/// A header frame: the UTF-8 bytes of a string, with more to follow.
pub open spec fn text_frame(s: Seq<char>) -> FrameModel {
    FrameModel { data: encode_utf8(s), more: true }
}

/// The three frames that open every delivery: who sends it, for which
/// service, and for which task.
pub open spec fn header_frames(identity: Seq<char>, service: Seq<char>, task_id: Seq<char>) -> Seq<
    FrameModel,
> {
    seq![text_frame(identity), text_frame(service), text_frame(task_id)]
}

/// The empty final frame that marks a task that produced nothing.
pub open spec fn empty_marker() -> FrameModel {
    FrameModel { data: Seq::empty(), more: false }
}

/// The delivery for a task whose input was empty or whose conversion failed.
pub open spec fn report_frames(identity: Seq<char>, service: Seq<char>, task_id: Seq<char>) -> Seq<
    FrameModel,
> {
    header_frames(identity, service, task_id).push(empty_marker())
}

/// The frame for one chunk of output read with chunk size `m`: a full chunk
/// has more to follow, a shorter one is the last.
pub open spec fn output_frame(chunk: Seq<u8>, m: nat) -> FrameModel {
    FrameModel { data: chunk, more: chunk.len() >= m }
}

/// `payload` cut into chunks of `m` bytes; the last chunk holds the rest,
/// and is empty when `m` divides the length.
pub open spec fn chunks(payload: Seq<u8>, m: nat) -> Seq<Seq<u8>>
    decreases payload.len(),
{
    if m == 0 || payload.len() < m {
        seq![payload]
    } else {
        seq![payload.take(m as int)] + chunks(payload.skip(m as int), m)
    }
}

/// The frames that carry `payload` with chunk size `m`.
pub open spec fn output_frames(payload: Seq<u8>, m: nat) -> Seq<FrameModel> {
    chunks(payload, m).map_values(|c: Seq<u8>| output_frame(c, m))
}

/// The bytes a sequence of frames carries, in order.
pub open spec fn frames_data(frames: Seq<FrameModel>) -> Seq<u8> {
    frames.map_values(|f: FrameModel| f.data).flatten()
}

proof fn lemma_chunks_shape(payload: Seq<u8>, m: nat)
    requires
        m > 0,
    ensures
        chunks(payload, m).len() == payload.len() / m + 1,
        chunks(payload, m).flatten() == payload,
        forall|k: int|
            0 <= k < payload.len() / m ==> (#[trigger] chunks(payload, m)[k]).len() == m,
        chunks(payload, m).last().len() == payload.len() % m,
    decreases payload.len(),
{
    let c = chunks(payload, m);
    if payload.len() < m {
        assert(c.drop_first() =~= Seq::<Seq<u8>>::empty());
        assert(c.drop_first().flatten() =~= Seq::<u8>::empty());
        assert(c.flatten() == c.first() + c.drop_first().flatten());
        assert(c.flatten() =~= payload);
        assert(payload.len() / m == 0 && payload.len() % m == payload.len()) by (nonlinear_arith)
            requires
                payload.len() < m,
                m > 0,
        ;
    } else {
        let rest = payload.skip(m as int);
        lemma_chunks_shape(rest, m);
        assert(payload.len() / m == rest.len() / m + 1) by (nonlinear_arith)
            requires
                rest.len() == payload.len() - m,
                payload.len() >= m,
                m > 0,
        ;
        assert(payload.len() % m == rest.len() % m) by (nonlinear_arith)
            requires
                rest.len() == payload.len() - m,
                payload.len() >= m,
                m > 0,
        ;
        assert(c.drop_first() =~= chunks(rest, m));
        assert(payload.take(m as int) + rest =~= payload);
        assert(c.flatten() == c.first() + c.drop_first().flatten());
        assert forall|k: int| 0 <= k < payload.len() / m implies (#[trigger] c[k]).len() == m by {
            if k > 0 {
                assert(c[k] == chunks(rest, m)[k - 1]);
            }
        }
    }
}

/// Cutting a payload into frames of chunk size `m` loses and adds nothing:
/// the frames carry the payload in order; every frame but the last holds
/// exactly `m` bytes and has more to follow; the last holds the remaining
/// `len % m` bytes (none when `m` divides the length) and is final.
pub proof fn lemma_output_frames_round_trip(payload: Seq<u8>, m: nat)
    requires
        m > 0,
    ensures
        output_frames(payload, m).len() == payload.len() / m + 1,
        frames_data(output_frames(payload, m)) == payload,
        forall|k: int|
            0 <= k < payload.len() / m ==> (#[trigger] output_frames(payload, m)[k]).data.len()
                == m && output_frames(payload, m)[k].more,
        output_frames(payload, m).last().data.len() == payload.len() % m,
        !output_frames(payload, m).last().more,
{
    lemma_chunks_shape(payload, m);
    let c = chunks(payload, m);
    let f = output_frames(payload, m);
    assert(f.map_values(|x: FrameModel| x.data) =~= c);
    assert forall|k: int| 0 <= k < payload.len() / m implies (#[trigger] f[k]).data.len() == m
        && f[k].more by {
        assert(f[k] == output_frame(c[k], m));
    }
    assert(f.last() == output_frame(c.last(), m));
    assert(payload.len() % m < m) by (nonlinear_arith)
        requires
            m > 0,
    ;
}

/// The header frame of `s`.
pub fn text_frame_of(s: &String) -> (r: Frame)
    ensures
        r@ == text_frame(s@),
{
    Frame { data: s.as_str().as_bytes_vec(), more: true }
}

/// The three header frames of a delivery.
pub fn header_frames_of(identity: &String, service: &String, task_id: &String) -> (r: Vec<Frame>)
    ensures
        frames_view(r@) == header_frames(identity@, service@, task_id@),
{
    let mut frames: Vec<Frame> = Vec::new();
    frames.push(text_frame_of(identity));
    frames.push(text_frame_of(service));
    frames.push(text_frame_of(task_id));
    assert(frames_view(frames@) =~= header_frames(identity@, service@, task_id@));
    frames
}

/// The delivery for a task that produced nothing: the three header frames and
/// an empty final frame.
pub fn report_frames_of(identity: &String, service: &String, task_id: &String) -> (r: Vec<Frame>)
    ensures
        frames_view(r@) == report_frames(identity@, service@, task_id@),
{
    let mut frames = header_frames_of(identity, service, task_id);
    frames.push(Frame { data: Vec::new(), more: false });
    assert(frames_view(frames@) =~= report_frames(identity@, service@, task_id@));
    frames
}

} // verus!
