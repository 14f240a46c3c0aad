//! The pointer drag protocol: locate both elements, intercept the browser's
//! drag, move the pointer from the source to the target in ten steps, replay
//! an intercepted drag as enter, over and drop events on the target,
//! release, and always switch the interception off again once it was on.
//!
//! The driver performs each action and reports how it went; this module
//! decides what comes next.
use vstd::prelude::*;
use crate::error::Error;

verus! {

/// The message of a finished drag.
pub const DRAG_DONE_MESSAGE: &'static str = "Dragged element";

/// The operations mask sent where the browser reports "all operations"
/// with a negative mask: copy and move.
pub const ALL_DRAG_OPERATIONS: i64 = 17;

/// The drag events replayed on the target, in order.
#[derive(Clone, Copy, PartialEq, Eq, Structural, Debug)]
pub enum DragEventKind {
    DragEnter,
    DragOver,
    Drop,
}

/// Where a drag stands.
#[derive(Clone, Copy, PartialEq, Eq, Structural, Debug)]
pub enum DragPhase {
    /// Finding the centres of the source and the target.
    Locate,
    /// Switching drag interception on.
    Enable,
    /// Moving the pointer onto the source.
    MoveToSource,
    /// Pressing the left button on the source.
    Press,
    /// Step `k` (of ten) of the move toward the target.
    Move(u8),
    /// Waiting for the intercepted drag.
    AwaitDrop,
    /// Replaying a drag event on the target.
    Dispatch(DragEventKind),
    /// Releasing the button on the target.
    Release,
    /// Switching drag interception off.
    Disable,
    /// The drag is over.
    Finished,
}

/// What the driver does next.
pub enum DragAction {
    /// Find the centres of the source and the target.
    LocatePoints,
    /// Switch drag interception on.
    EnableInterception,
    /// Move the pointer onto the source (no button).
    MoveToSource,
    /// Press the left button on the source (one click).
    PressAtSource,
    /// Move the pointer, left button held, `k` tenths of the way to the target.
    MoveStep(u8),
    /// Wait (up to two seconds) for the intercepted drag.
    AwaitIntercepted,
    /// Replay the intercepted drag as this event on the target.
    DispatchDrag(DragEventKind),
    /// Release the left button on the target.
    ReleaseAtTarget,
    /// Switch drag interception off.
    DisableInterception,
    /// The drag ended with this outcome.
    Finish(Result<(), Error>),
    /// Nothing is left to do.
    Nothing,
}

/// How an action went: `Done(found)` where it succeeded (for
/// `LocatePoints`, whether both elements were found; for
/// `AwaitIntercepted`, whether a drag was intercepted), or the error it
/// failed with.
pub enum DragEvent {
    Done(bool),
    Failed(Error),
}

/// Phases in which drag interception is on.
pub open spec fn intercepting(p: DragPhase) -> bool {
    match p {
        DragPhase::Locate | DragPhase::Enable | DragPhase::Finished => false,
        _ => true,
    }
}

/// The phase after `p` when its action succeeded, for the phases of the
/// drag itself (pointer moves, replayed events and release).
pub open spec fn drag_advance(p: DragPhase, found: bool) -> DragPhase {
    match p {
        DragPhase::MoveToSource => DragPhase::Press,
        DragPhase::Press => DragPhase::Move(1),
        DragPhase::Move(k) => if k < 10 {
            DragPhase::Move((k + 1) as u8)
        } else {
            DragPhase::AwaitDrop
        },
        DragPhase::AwaitDrop => if found {
            DragPhase::Dispatch(DragEventKind::DragEnter)
        } else {
            DragPhase::Release
        },
        DragPhase::Dispatch(DragEventKind::DragEnter) => DragPhase::Dispatch(DragEventKind::DragOver),
        DragPhase::Dispatch(DragEventKind::DragOver) => DragPhase::Dispatch(DragEventKind::Drop),
        DragPhase::Dispatch(DragEventKind::Drop) => DragPhase::Release,
        _ => DragPhase::Disable,
    }
}

/// The action of a phase of the drag itself.
pub open spec fn phase_action(p: DragPhase, a: DragAction) -> bool {
    match p {
        DragPhase::Press => a is PressAtSource,
        DragPhase::Move(k) => a == DragAction::MoveStep(k),
        DragPhase::AwaitDrop => a is AwaitIntercepted,
        DragPhase::Dispatch(kind) => a == DragAction::DispatchDrag(kind),
        DragPhase::Release => a is ReleaseAtTarget,
        DragPhase::Disable => a is DisableInterception,
        _ => false,
    }
}

/// One step of the drag: from phase `p` with the first failure `f` met
/// while interception was on, on event `ev`, to phase `p2` with failure
/// `f2`, taking action `a`.
pub open spec fn drag_step(
    p: DragPhase,
    f: Option<Error>,
    ev: DragEvent,
    p2: DragPhase,
    f2: Option<Error>,
    a: DragAction,
) -> bool {
    match p {
        DragPhase::Locate => match ev {
            DragEvent::Done(true) => p2 == DragPhase::Enable && f2 is None && a is EnableInterception,
            DragEvent::Done(false) => p2 == DragPhase::Finished && f2 is None && (a matches DragAction::Finish(
                Err(Error::ElementNotFound(m)),
            ) && m@ == "Drag source or target not found"@),
            DragEvent::Failed(e) => p2 == DragPhase::Finished && f2 is None && a == DragAction::Finish(Err(e)),
        },
        DragPhase::Enable => match ev {
            DragEvent::Done(_) => p2 == DragPhase::MoveToSource && f2 is None && a is MoveToSource,
            DragEvent::Failed(e) => p2 == DragPhase::Finished && f2 is None && a == DragAction::Finish(Err(e)),
        },
        DragPhase::Disable => p2 == DragPhase::Finished && f2 is None && match f {
            Some(e) => a == DragAction::Finish(Err(e)),
            None => match ev {
                DragEvent::Done(_) => a == DragAction::Finish(Ok(())),
                DragEvent::Failed(e2) => a == DragAction::Finish(Err(e2)),
            },
        },
        DragPhase::Finished => p2 == DragPhase::Finished && f2 == f && a is Nothing,
        _ => match ev {
            DragEvent::Done(found) => {
                &&& p2 == drag_advance(p, found)
                &&& f2 == f
                &&& phase_action(p2, a)
            },
            DragEvent::Failed(e) => p2 == DragPhase::Disable && f2 == Some(e) && a is DisableInterception,
        },
    }
}

/// A drag in progress.
pub struct DragMachine {
    phase: DragPhase,
    failure: Option<Error>,
}

impl DragMachine {
    /// The phase the drag stands in.
    pub closed spec fn phase_of(&self) -> DragPhase {
        self.phase
    }

    /// The first failure met while interception was on.
    pub closed spec fn failure_of(&self) -> Option<Error> {
        self.failure
    }

    /// Move steps count from one to ten, and a failure is kept only while
    /// switching interception off.
    pub open spec fn wf(&self) -> bool {
        &&& (self.phase_of() matches DragPhase::Move(k) ==> 1 <= k <= 10)
        &&& (self.failure_of() is Some ==> self.phase_of() == DragPhase::Disable)
    }

    /// A drag that starts by locating its elements.
    pub fn new() -> (r: (Self, DragAction))
        ensures
            r.0.wf(),
            r.0.phase_of() == DragPhase::Locate,
            r.0.failure_of() is None,
            r.1 is LocatePoints,
    {
        (DragMachine { phase: DragPhase::Locate, failure: None }, DragAction::LocatePoints)
    }

    /// The phase the drag stands in.
    pub fn phase(&self) -> (r: DragPhase)
        ensures
            r == self.phase_of(),
    {
        self.phase
    }

    /// Takes the outcome of the last action and gives the next one.
    pub fn step(&mut self, ev: DragEvent) -> (a: DragAction)
        requires
            old(self).wf(),
        ensures
            final(self).wf(),
            drag_step(old(self).phase_of(), old(self).failure_of(), ev, final(self).phase_of(), final(self).failure_of(), a),
    {
        match self.phase {
            DragPhase::Locate => match ev {
                DragEvent::Done(true) => {
                    self.phase = DragPhase::Enable;
                    DragAction::EnableInterception
                },
                DragEvent::Done(false) => {
                    self.phase = DragPhase::Finished;
                    DragAction::Finish(Err(Error::ElementNotFound(String::from_str("Drag source or target not found"))))
                },
                DragEvent::Failed(e) => {
                    self.phase = DragPhase::Finished;
                    DragAction::Finish(Err(e))
                },
            },
            DragPhase::Enable => match ev {
                DragEvent::Done(_) => {
                    self.phase = DragPhase::MoveToSource;
                    DragAction::MoveToSource
                },
                DragEvent::Failed(e) => {
                    self.phase = DragPhase::Finished;
                    DragAction::Finish(Err(e))
                },
            },
            DragPhase::Disable => {
                self.phase = DragPhase::Finished;
                let earlier = self.failure.take();
                match earlier {
                    Some(e) => DragAction::Finish(Err(e)),
                    None => match ev {
                        DragEvent::Done(_) => DragAction::Finish(Ok(())),
                        DragEvent::Failed(e2) => DragAction::Finish(Err(e2)),
                    },
                }
            },
            DragPhase::Finished => DragAction::Nothing,
            _ => match ev {
                DragEvent::Failed(e) => {
                    self.phase = DragPhase::Disable;
                    self.failure = Some(e);
                    DragAction::DisableInterception
                },
                DragEvent::Done(found) => {
                    let next = match self.phase {
                        DragPhase::MoveToSource => DragPhase::Press,
                        DragPhase::Press => DragPhase::Move(1),
                        DragPhase::Move(k) => if k < 10 {
                            DragPhase::Move(k + 1)
                        } else {
                            DragPhase::AwaitDrop
                        },
                        DragPhase::AwaitDrop => if found {
                            DragPhase::Dispatch(DragEventKind::DragEnter)
                        } else {
                            DragPhase::Release
                        },
                        DragPhase::Dispatch(DragEventKind::DragEnter) => DragPhase::Dispatch(DragEventKind::DragOver),
                        DragPhase::Dispatch(DragEventKind::DragOver) => DragPhase::Dispatch(DragEventKind::Drop),
                        DragPhase::Dispatch(DragEventKind::Drop) => DragPhase::Release,
                        _ => DragPhase::Disable,
                    };
                    self.phase = next;
                    match next {
                        DragPhase::Press => DragAction::PressAtSource,
                        DragPhase::Move(k) => DragAction::MoveStep(k),
                        DragPhase::AwaitDrop => DragAction::AwaitIntercepted,
                        DragPhase::Dispatch(kind) => DragAction::DispatchDrag(kind),
                        DragPhase::Release => DragAction::ReleaseAtTarget,
                        _ => DragAction::DisableInterception,
                    }
                },
            },
        }
    }
}

/// Once drag interception is on, a drag never finishes without switching
/// it off first: every step from a phase with interception on leads to a
/// phase with it still on, or to switching it off, and never finishes the
/// drag; and the first failure met on the way is the outcome of the drag.
pub proof fn law_drag_always_disables(
    p: DragPhase,
    f: Option<Error>,
    ev: DragEvent,
    p2: DragPhase,
    f2: Option<Error>,
    a: DragAction,
)
    requires
        drag_step(p, f, ev, p2, f2, a),
        p matches DragPhase::Move(k) ==> 1 <= k <= 10,
    ensures
        intercepting(p) && p != DragPhase::Disable ==> intercepting(p2) && !(a is Finish),
        a is Finish ==> !intercepting(p) || p == DragPhase::Disable,
        p == DragPhase::Disable && f is Some ==> a == DragAction::Finish(Err(f->0)),
        p2 == DragPhase::Disable ==> a is DisableInterception,
{
}

/// One item of a drag's data.
pub struct DragItem {
    pub mime_type: String,
    pub data: String,
    pub title: Option<String>,
    pub base_url: Option<String>,
}

/// The data of an intercepted drag.
pub struct DragPayload {
    pub items: Vec<DragItem>,
    pub files: Option<Vec<String>>,
    pub operations_mask: i64,
}

/// Makes intercepted drag data fit to be replayed: a negative operations
/// mask ("all operations") becomes copy and move, and data without items
/// gets one empty `text/plain` item; the rest stays.
pub fn normalize_drag_payload(payload: DragPayload) -> (r: DragPayload)
    ensures
        r.operations_mask == (if payload.operations_mask < 0 {
            ALL_DRAG_OPERATIONS
        } else {
            payload.operations_mask
        }),
        payload.items@.len() > 0 ==> r.items@ == payload.items@,
        payload.items@.len() == 0 ==> {
            &&& r.items@.len() == 1
            &&& r.items@[0].mime_type@ == "text/plain"@
            &&& r.items@[0].data@ == Seq::<char>::empty()
            &&& r.items@[0].title is None
            &&& r.items@[0].base_url is None
        },
        r.files == payload.files,
{
    let mut p = payload;
    if p.operations_mask < 0 {
        p.operations_mask = ALL_DRAG_OPERATIONS;
    }
    if p.items.len() == 0 {
        p.items.push(
            DragItem { mime_type: String::from_str("text/plain"), data: String::new(), title: None, base_url: None },
        );
    }
    p
}

} // verus!
