//! The session endpoints' answers, and the state machine that turns a
//! streaming chat's agent events into SSE frames.

use crate::application::services::agent_service::{lemma_reply_of_concat, reply_of, AgentEvent};
use crate::interfaces::schemas::response::Response;
use crate::interfaces::schemas::session::{ChatResponse, CreateSessionResponse};
use crate::interfaces::schemas::sse::{
    adk_event_to_frames, done_frame, error_frame, event_frames, frames_view, message_data, FrameView,
    SseFrame,
};
use vstd::prelude::*;

verus! {

/// The user that every request acts for, as there is no authentication yet.
pub const DEFAULT_USER_ID: &'static str = "user";

/// The answer to creating a session: code 200 with "创建会话成功" and the new id.
pub fn session_created(session_id: String) -> (r: Response<CreateSessionResponse>)
    ensures
        r.code == 200,
        r.msg@ == "创建会话成功"@,
        r.data.session_id == session_id,
{
    Response::with(200, "创建会话成功", CreateSessionResponse { session_id })
}

/// The answer to a chat: a success carrying the session id and the whole reply.
pub fn chat_answered(session_id: String, reply: String) -> (r: Response<ChatResponse>)
    ensures
        r.code == 200,
        r.msg@ == "success"@,
        r.data.session_id == session_id,
        r.data.reply == reply,
{
    Response::success(ChatResponse { session_id, reply })
}

/// What the streaming chat hears from the agent run: an event, a failure to
/// read the next event, or the end of the run's event stream.
#[derive(Debug, Clone)]
pub enum StreamInput {
    Event(AgentEvent),
    Failure(String),
    End,
}

/// The frames that one input brings, given whether the stream has ended: an
/// event's frames; on a failure an `error` frame with its reason and then
/// `done`; at the end `done`; and nothing once the stream has ended.
pub open spec fn step_frames(finished: bool, input: StreamInput) -> Seq<FrameView> {
    if finished {
        Seq::empty()
    } else {
        match input {
            StreamInput::Event(e) => event_frames(e),
            StreamInput::Failure(reason) => seq![error_frame(reason@), done_frame()],
            StreamInput::End => seq![done_frame()],
        }
    }
}

/// Whether the stream has ended after one more input.
pub open spec fn step_finishes(finished: bool, input: StreamInput) -> bool {
    finished || !(input is Event)
}

/// The frames that a sequence of inputs brings.
pub open spec fn run_frames(finished: bool, inputs: Seq<StreamInput>) -> Seq<FrameView>
    decreases inputs.len(),
{
    if inputs.len() == 0 {
        Seq::empty()
    } else {
        step_frames(finished, inputs[0]) + run_frames(
            step_finishes(finished, inputs[0]),
            inputs.drop_first(),
        )
    }
}

/// Whether the stream has ended after a sequence of inputs.
pub open spec fn run_finishes(finished: bool, inputs: Seq<StreamInput>) -> bool
    decreases inputs.len(),
{
    if inputs.len() == 0 {
        finished
    } else {
        run_finishes(step_finishes(finished, inputs[0]), inputs.drop_first())
    }
}

/// The state of one streaming chat: whether its stream has ended.
#[derive(Debug, Clone, Copy)]
pub struct ChatStream {
    finished: bool,
}

impl ChatStream {
    pub closed spec fn spec_finished(&self) -> bool {
        self.finished
    }

    /// A stream that has not ended.
    pub fn new() -> (s: Self)
        ensures
            !s.spec_finished(),
    {
        ChatStream { finished: false }
    }

    /// Whether the stream has ended; nothing more is sent then.
    pub fn is_finished(&self) -> (b: bool)
        ensures
            b == self.spec_finished(),
    {
        self.finished
    }

    /// Takes a sequence of inputs, one step each, and returns all the frames
    /// sent for them, in order.
    pub fn feed_all(&mut self, inputs: Vec<StreamInput>) -> (frames: Vec<SseFrame>)
        ensures
            frames_view(frames@) == run_frames(old(self).spec_finished(), inputs@),
            final(self).spec_finished() == run_finishes(old(self).spec_finished(), inputs@),
    {
        let ghost start = self.finished;
        let ghost all = inputs@;
        let mut rest = inputs;
        let mut frames: Vec<SseFrame> = Vec::new();
        while rest.len() > 0
            invariant
                frames_view(frames@) + run_frames(self.finished, rest@) == run_frames(start, all),
                run_finishes(self.finished, rest@) == run_finishes(start, all),
            decreases rest@.len(),
        {
            let ghost before = rest@;
            let ghost state = self.finished;
            let input = rest.remove(0);
            assert(rest@ =~= before.drop_first());
            let step = self.step(input);
            let ghost old_frames = frames_view(frames@);
            let mut step_left = step;
            let ghost step_all = frames_view(step_left@);
            while step_left.len() > 0
                invariant
                    frames_view(frames@) + frames_view(step_left@) == old_frames + step_all,
                decreases step_left@.len(),
            {
                let ghost sb = step_left@;
                let f = step_left.remove(0);
                assert(step_left@ =~= sb.drop_first());
                assert(frames_view(sb) =~= seq![f@] + frames_view(step_left@));
                let ghost fb = frames@;
                frames.push(f);
                assert(frames_view(frames@) =~= frames_view(fb) + seq![f@]);
                assert(frames_view(frames@) + frames_view(step_left@) =~= frames_view(fb) + frames_view(sb));
            }
            assert(frames_view(step_left@) =~= Seq::<FrameView>::empty());
            assert(frames_view(frames@) =~= old_frames + step_all);
            assert(run_frames(state, before) == step_all + run_frames(self.finished, rest@));
            assert(old_frames + run_frames(state, before) =~= frames_view(frames@) + run_frames(
                self.finished,
                rest@,
            ));
        }
        assert(run_frames(self.finished, rest@) =~= Seq::<FrameView>::empty());
        assert(frames_view(frames@) + Seq::<FrameView>::empty() =~= frames_view(frames@));
        frames
    }

    /// Takes one input and returns the frames to send for it.
    pub fn step(&mut self, input: StreamInput) -> (frames: Vec<SseFrame>)
        ensures
            frames_view(frames@) == step_frames(old(self).spec_finished(), input),
            final(self).spec_finished() == step_finishes(old(self).spec_finished(), input),
    {
        if self.finished {
            let frames = Vec::new();
            assert(frames_view(frames@) =~= Seq::<FrameView>::empty());
            return frames;
        }
        match input {
            StreamInput::Event(event) => {
                adk_event_to_frames(&event)
            },
            StreamInput::Failure(reason) => {
                self.finished = true;
                let mut frames = Vec::new();
                frames.push(SseFrame::error(reason.as_str()));
                frames.push(SseFrame::done());
                assert(frames_view(frames@) =~= seq![error_frame(reason@), done_frame()]);
                frames
            },
            StreamInput::End => {
                self.finished = true;
                let mut frames = Vec::new();
                frames.push(SseFrame::done());
                assert(frames_view(frames@) =~= seq![done_frame()]);
                frames
            },
        }
    }
}

/// No frame of the list is a `done` frame.
pub open spec fn no_done(frames: Seq<FrameView>) -> bool {
    forall|i: int| 0 <= i < frames.len() ==> (#[trigger] frames[i]).0 != "done"@
}

/// Once the stream has ended, no input brings any frame.
pub proof fn lemma_ended_stream_is_silent(inputs: Seq<StreamInput>)
    ensures
        run_frames(true, inputs) == Seq::<FrameView>::empty(),
    decreases inputs.len(),
{
    if inputs.len() > 0 {
        lemma_ended_stream_is_silent(inputs.drop_first());
        assert(run_frames(true, inputs) =~= Seq::<FrameView>::empty());
    }
}

proof fn lemma_event_frames_not_done(e: AgentEvent)
    ensures
        no_done(event_frames(e)),
{
    reveal_strlit("done");
    reveal_strlit("delta");
    reveal_strlit("message");
    assert("delta"@[1] != "done"@[1]);
    assert("message"@.len() != "done"@.len());
}

/// A stream sends its `done` frame exactly once, as its last frame: while
/// only events come, no `done` is sent; once a failure or the end has come,
/// the frames sent end with `done` and hold no other. A failure's `error`
/// frame comes just before that `done`.
pub proof fn lemma_done_exactly_once_at_end(inputs: Seq<StreamInput>)
    ensures
        (forall|i: int| 0 <= i < inputs.len() ==> #[trigger] inputs[i] is Event) ==> no_done(
            run_frames(false, inputs),
        ),
        (exists|i: int| 0 <= i < inputs.len() && !(#[trigger] inputs[i] is Event)) ==> {
            let out = run_frames(false, inputs);
            &&& out.len() > 0
            &&& out.last() == done_frame()
            &&& no_done(out.drop_last())
        },
    decreases inputs.len(),
{
    reveal_strlit("done");
    reveal_strlit("error");
    if inputs.len() == 0 {
        return;
    }
    let rest = inputs.drop_first();
    let out = run_frames(false, inputs);
    match inputs[0] {
        StreamInput::Event(e) => {
            lemma_done_exactly_once_at_end(rest);
            lemma_event_frames_not_done(e);
            let ef = event_frames(e);
            let ro = run_frames(false, rest);
            assert(out == ef + ro);
            if forall|i: int| 0 <= i < inputs.len() ==> #[trigger] inputs[i] is Event {
                assert forall|i: int| 0 <= i < rest.len() implies #[trigger] rest[i] is Event by {
                    assert(rest[i] == inputs[i + 1]);
                }
                assert forall|i: int| 0 <= i < out.len() implies (#[trigger] out[i]).0 != "done"@ by {
                    if i < ef.len() {
                        assert(out[i] == ef[i]);
                    } else {
                        assert(out[i] == ro[i - ef.len()]);
                    }
                }
            }
            if exists|i: int| 0 <= i < inputs.len() && !(#[trigger] inputs[i] is Event) {
                let i = choose|i: int| 0 <= i < inputs.len() && !(#[trigger] inputs[i] is Event);
                assert(i > 0);
                assert(rest[i - 1] == inputs[i]);
                assert(out.last() == ro.last());
                assert(out.drop_last() =~= ef + ro.drop_last());
                let od = out.drop_last();
                let rd = ro.drop_last();
                assert forall|j: int| 0 <= j < od.len() implies (#[trigger] od[j]).0 != "done"@ by {
                    if j < ef.len() {
                        assert(od[j] == ef[j]);
                    } else {
                        assert(od[j] == rd[j - ef.len()]);
                    }
                }
            }
        },
        StreamInput::Failure(reason) => {
            lemma_ended_stream_is_silent(rest);
            assert(out =~= seq![error_frame(reason@), done_frame()]);
            assert(out.drop_last() =~= seq![error_frame(reason@)]);
            assert("error"@[0] != "done"@[0]);
        },
        StreamInput::End => {
            lemma_ended_stream_is_silent(rest);
            assert(out =~= seq![done_frame()]);
            assert(out.drop_last() =~= Seq::<FrameView>::empty());
        },
    }
}

/// When the first input that is not an event is a failure, its `error` frame,
/// with its reason, is sent just before the final `done`.
pub proof fn lemma_failure_reported_before_done(inputs: Seq<StreamInput>, i: int)
    requires
        0 <= i < inputs.len(),
        forall|j: int| 0 <= j < i ==> #[trigger] inputs[j] is Event,
        inputs[i] is Failure,
    ensures
        ({
            let out = run_frames(false, inputs);
            out.len() >= 2 && out[out.len() - 2] == error_frame(inputs[i]->Failure_0@)
        }),
    decreases inputs.len(),
{
    let rest = inputs.drop_first();
    let out = run_frames(false, inputs);
    if i == 0 {
        lemma_ended_stream_is_silent(rest);
        assert(out =~= seq![error_frame(inputs[0]->Failure_0@), done_frame()]);
    } else {
        assert(inputs[0] is Event);
        assert forall|j: int| 0 <= j < i - 1 implies #[trigger] rest[j] is Event by {
            assert(rest[j] == inputs[j + 1]);
        }
        assert(rest[i - 1] == inputs[i]);
        lemma_failure_reported_before_done(rest, i - 1);
        let ef = event_frames(inputs[0]->Event_0);
        let ro = run_frames(false, rest);
        assert(out == ef + ro);
        assert(out[out.len() - 2] == ro[ro.len() - 2]);
    }
}

/// The `message` frames of a list of frames, in order.
pub open spec fn message_frames(frames: Seq<FrameView>) -> Seq<FrameView>
    decreases frames.len(),
{
    if frames.len() == 0 {
        Seq::empty()
    } else {
        (if frames[0].0 == "message"@ {
            seq![frames[0]]
        } else {
            Seq::empty()
        }) + message_frames(frames.drop_first())
    }
}

/// The texts of the final events that carry text, in order.
pub open spec fn final_texts(events: Seq<AgentEvent>) -> Seq<Seq<char>>
    decreases events.len(),
{
    if events.len() == 0 {
        Seq::empty()
    } else {
        let e = events[0];
        (if !e.partial && e.spec_text().len() > 0 {
            seq![e.spec_text()]
        } else {
            Seq::empty()
        }) + final_texts(events.drop_first())
    }
}

/// Texts joined in order.
pub open spec fn joined(texts: Seq<Seq<char>>) -> Seq<char>
    decreases texts.len(),
{
    if texts.len() == 0 {
        Seq::empty()
    } else {
        texts[0] + joined(texts.drop_first())
    }
}

/// The inputs that feed a run's events to the stream.
pub open spec fn event_inputs(events: Seq<AgentEvent>) -> Seq<StreamInput> {
    events.map_values(|e: AgentEvent| StreamInput::Event(e))
}

proof fn lemma_message_frames_concat(a: Seq<FrameView>, b: Seq<FrameView>)
    ensures
        message_frames(a + b) == message_frames(a) + message_frames(b),
    decreases a.len(),
{
    if a.len() == 0 {
        assert(a + b =~= b);
        assert(message_frames(a) + message_frames(b) =~= message_frames(b));
    } else {
        lemma_message_frames_concat(a.drop_first(), b);
        assert((a + b).drop_first() =~= a.drop_first() + b);
        assert((a + b)[0] == a[0]);
        let head = if a[0].0 == "message"@ {
            seq![a[0]]
        } else {
            Seq::<FrameView>::empty()
        };
        assert(head + (message_frames(a.drop_first()) + message_frames(b)) =~= head
            + message_frames(a.drop_first()) + message_frames(b));
    }
}

/// A streaming chat and a non-streaming chat of the same run agree: the
/// `message` frames that the stream sends are, in order, one for each final
/// event that carries text, with that text; and the whole reply of the
/// non-streaming chat is those same texts joined.
pub proof fn lemma_stream_messages_match_reply(events: Seq<AgentEvent>)
    ensures
        message_frames(run_frames(false, event_inputs(events))) == final_texts(events).map_values(
            |t: Seq<char>| ("message"@, message_data(t)),
        ),
        reply_of(events) == joined(final_texts(events)),
    decreases events.len(),
{
    let f = |t: Seq<char>| ("message"@, message_data(t));
    let inputs = event_inputs(events);
    if events.len() == 0 {
        assert(final_texts(events).map_values(f) =~= Seq::<FrameView>::empty());
        return;
    }
    reveal_strlit("message");
    reveal_strlit("delta");
    let e = events[0];
    let rest = events.drop_first();
    lemma_stream_messages_match_reply(rest);
    assert(inputs[0] == StreamInput::Event(e));
    assert(inputs.drop_first() =~= event_inputs(rest));
    let ef = event_frames(e);
    let ro = run_frames(false, event_inputs(rest));
    assert(run_frames(false, inputs) == ef + ro);
    lemma_message_frames_concat(ef, ro);
    let head = if !e.partial && e.spec_text().len() > 0 {
        seq![e.spec_text()]
    } else {
        Seq::<Seq<char>>::empty()
    };
    assert(final_texts(events) == head + final_texts(rest));
    assert(final_texts(events).map_values(f) =~= head.map_values(f) + final_texts(rest).map_values(f));
    if e.spec_text().len() == 0 {
        assert(message_frames(ef) =~= Seq::<FrameView>::empty());
    } else if e.partial {
        assert("delta"@[0] != "message"@[0]);
        assert(message_frames(ef.drop_first()) =~= Seq::<FrameView>::empty());
        assert(message_frames(ef) =~= Seq::<FrameView>::empty());
    } else {
        assert(message_frames(ef.drop_first()) =~= Seq::<FrameView>::empty());
        assert(message_frames(ef) =~= head.map_values(f));
    }
    // the reply side
    lemma_reply_of_concat(seq![e], rest);
    assert(seq![e] + rest =~= events);
    assert(seq![e].drop_last() =~= Seq::<AgentEvent>::empty());
    assert(reply_of(Seq::<AgentEvent>::empty()) == Seq::<char>::empty());
    if head.len() == 0 {
        assert(head + final_texts(rest) =~= final_texts(rest));
        assert(reply_of(seq![e]) =~= Seq::<char>::empty());
    } else {
        assert((head + final_texts(rest)).drop_first() =~= final_texts(rest));
        assert(reply_of(seq![e]) =~= e.spec_text());
    }
}

} // verus!
