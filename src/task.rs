use vstd::prelude::*;

use crate::input::ImageInput;

verus! {

/// Requested recognition accuracy; advisory, one engine ignores it.
#[derive(Clone, Copy, Debug, PartialEq, Eq, Structural)]
pub enum OcrAccuracy {
    Fast,
    Accurate,
}

/// Everything an engine call needs, handed out once by a task.
pub struct OcrRequest {
    pub image: ImageInput,
    pub accuracy: OcrAccuracy,
    pub preferred_langs: Vec<String>,
}

/// What a task decides when asked to start.
pub enum TaskStart {
    /// The cancellation signal fired first: no engine call is made.
    Cancelled,
    /// Make the engine call with this request.
    Run(OcrRequest),
    /// The input was already handed out: no second engine call is made.
    Consumed,
}

/// A recognition call before it starts: it holds its input until the one
/// engine call takes it.
pub struct RecognizeTask {
    image: Option<ImageInput>,
    accuracy: OcrAccuracy,
    preferred_langs: Option<Vec<String>>,
}

/// The accuracy used when none is given.
pub open spec fn accuracy_or_default(a: Option<OcrAccuracy>) -> OcrAccuracy {
    match a {
        Some(a) => a,
        None => OcrAccuracy::Accurate,
    }
}

impl RecognizeTask {
    /// The input not yet handed out, if any.
    pub closed spec fn pending_image(&self) -> Option<ImageInput> {
        self.image
    }

    /// The accuracy the task was made with.
    pub closed spec fn spec_accuracy(&self) -> OcrAccuracy {
        self.accuracy
    }

    /// The language hints the task hands out (none given counts as empty).
    pub closed spec fn spec_langs(&self) -> Seq<String> {
        match self.preferred_langs {
            Some(v) => v@,
            None => Seq::empty(),
        }
    }

    /// A task over `image`; accuracy defaults to `Accurate`, language hints to none.
    pub fn new(
        image: ImageInput,
        accuracy: Option<OcrAccuracy>,
        preferred_langs: Option<Vec<String>>,
    ) -> (r: RecognizeTask)
        ensures
            r.pending_image() == Some(image),
            r.spec_accuracy() == accuracy_or_default(accuracy),
            r.spec_langs() == (match preferred_langs {
                Some(v) => v@,
                None => Seq::<String>::empty(),
            }),
    {
        let accuracy = match accuracy {
            Some(a) => a,
            None => OcrAccuracy::Accurate,
        };
        RecognizeTask { image: Some(image), accuracy, preferred_langs }
    }

    /// Decides whether the engine call may start. A fired cancellation signal
    /// wins and leaves the task as it was; otherwise the input is handed out
    /// exactly once and the task is left empty.
    pub fn start(&mut self, cancelled: bool) -> (r: TaskStart)
        ensures
            starts(*old(self), cancelled, *final(self), r),
    {
        if cancelled {
            return TaskStart::Cancelled;
        }
        match self.image.take() {
            None => TaskStart::Consumed,
            Some(image) => {
                let preferred_langs = match self.preferred_langs.take() {
                    Some(v) => v,
                    None => Vec::new(),
                };
                TaskStart::Run(OcrRequest { image, accuracy: self.accuracy, preferred_langs })
            },
        }
    }
}

/// How `start` moves a task from `before` to `after` and what it returns.
pub open spec fn starts(
    before: RecognizeTask,
    cancelled: bool,
    after: RecognizeTask,
    r: TaskStart,
) -> bool {
    if cancelled {
        r is Cancelled && after == before
    } else {
        match before.pending_image() {
            None => r is Consumed && after.pending_image() is None,
            Some(image) => {
                &&& after.pending_image() is None
                &&& r matches TaskStart::Run(req) && req.image == image && req.accuracy
                    == before.spec_accuracy() && req.preferred_langs@ == before.spec_langs()
            },
        }
    }
}

/// A cancellation signal that fired before the task started never lets the
/// engine call run.
pub proof fn lemma_cancelled_never_runs(
    before: RecognizeTask,
    after: RecognizeTask,
    r: TaskStart,
)
    requires
        starts(before, true, after, r),
    ensures
        r is Cancelled,
        after.pending_image() == before.pending_image(),
{
}

/// Once a task has handed out its input, no later start runs the engine again.
pub proof fn lemma_runs_at_most_once(
    t0: RecognizeTask,
    c1: bool,
    t1: RecognizeTask,
    r1: TaskStart,
    c2: bool,
    t2: RecognizeTask,
    r2: TaskStart,
)
    requires
        starts(t0, c1, t1, r1),
        r1 is Run,
        starts(t1, c2, t2, r2),
    ensures
        !(r2 is Run),
        t2.pending_image() is None,
{
}

/// The languages for the engine that takes a full list: the hints, or
/// `en-US` when none are given.
pub open spec fn vision_languages_of(hints: Seq<Seq<char>>) -> Seq<Seq<char>> {
    if hints.len() == 0 {
        seq!["en-US"@]
    } else {
        hints
    }
}

/// The languages for the engine that takes a full list: the hints, or
/// `en-US` when none are given.
pub fn vision_languages(hints: Vec<String>) -> (r: Vec<String>)
    ensures
        crate::input::views_of(r@) == vision_languages_of(crate::input::views_of(hints@)),
{
    if hints.len() == 0 {
        let mut v = Vec::new();
        v.push(String::from_str("en-US"));
        assert(crate::input::views_of(v@) =~= seq!["en-US"@]);
        v
    } else {
        hints
    }
}

/// The language for the engine that takes one: the first hint, if any; none
/// means the system's default languages.
pub fn engine_language(hints: &Vec<String>) -> (r: Option<&String>)
    ensures
        hints.len() == 0 ==> r is None,
        hints.len() > 0 ==> r == Some(&hints@[0]),
{
    if hints.len() == 0 {
        None
    } else {
        Some(&hints[0])
    }
}

} // verus!
