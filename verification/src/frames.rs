//! What a page knows of its frames, its URL, its navigations and its
//! lifecycle, kept up to date from the browser's events.
use vstd::prelude::*;

use crate::chrome::opt_view;
use crate::diagnostics::NavigationEvent;
use crate::page::non_empty;
use crate::protocol::page::{Frame, FrameTree};
use crate::text::str_from;

verus! {

/// Information tracked for a frame.
#[derive(Debug)]
pub struct FrameInfo {
    /// The parent frame, for subframes.
    pub parent_id: Option<String>,
    /// The frame's URL.
    pub url: String,
    /// The frame's name.
    pub name: String,
    /// The frame's default execution context, once created.
    pub execution_context_id: Option<i64>,
}

/// The model of a [`FrameInfo`].
pub ghost struct FrameModel {
    pub parent: Option<Seq<char>>,
    pub url: Seq<char>,
    pub name: Seq<char>,
    pub context: Option<i64>,
}

impl View for FrameInfo {
    type V = FrameModel;

    open spec fn view(&self) -> FrameModel {
        FrameModel {
            parent: opt_view(self.parent_id),
            url: self.url@,
            name: self.name@,
            context: self.execution_context_id,
        }
    }
}

/// A frame known only by its id: no parent, URL, name or context.
pub open spec fn blank_frame() -> FrameModel {
    FrameModel { parent: None, url: seq![], name: seq![], context: None }
}

/// The frames of a page by id, in the order they became known.
pub open spec fn frames_view(entries: Seq<(String, FrameInfo)>) -> Seq<(Seq<char>, FrameModel)> {
    entries.map_values(|e: (String, FrameInfo)| (e.0@, e.1@))
}

/// The position of the frame `id`.
pub open spec fn frame_index(frames: Seq<(Seq<char>, FrameModel)>, id: Seq<char>) -> Option<int> {
    if exists|i: int| 0 <= i < frames.len() && frames[i].0 == id {
        Some(choose|i: int| 0 <= i < frames.len() && frames[i].0 == id)
    } else {
        None
    }
}

/// No frame id occurs twice.
pub open spec fn ids_distinct(frames: Seq<(Seq<char>, FrameModel)>) -> bool {
    forall|i: int, j: int| 0 <= i < j < frames.len() ==> frames[i].0 != frames[j].0
}

/// In a table of distinct ids, `frame_index` finds the one entry with that id.
pub proof fn lemma_frame_index(frames: Seq<(Seq<char>, FrameModel)>, id: Seq<char>)
    requires
        ids_distinct(frames),
    ensures
        match frame_index(frames, id) {
            Some(i) => 0 <= i < frames.len() && frames[i].0 == id && forall|k: int|
                0 <= k < frames.len() && k != i ==> frames[k].0 != id,
            None => forall|k: int| 0 <= k < frames.len() ==> frames[k].0 != id,
        },
{
}

/// `frames` with `id` bound to `model`: in place when known, else appended.
pub open spec fn upsert(frames: Seq<(Seq<char>, FrameModel)>, id: Seq<char>, model: FrameModel) -> Seq<(Seq<char>, FrameModel)> {
    match frame_index(frames, id) {
        Some(i) => frames.update(i, (id, model)),
        None => frames.push((id, model)),
    }
}

/// The frame `id` of `frames`, if known.
pub open spec fn lookup(frames: Seq<(Seq<char>, FrameModel)>, id: Seq<char>) -> Option<FrameModel> {
    match frame_index(frames, id) {
        Some(i) => Some(frames[i].1),
        None => None,
    }
}

/// `frames` after `Page.frameAttached`: a frame not known yet becomes known
/// with its parent (none when the parent id is empty); a known frame is left
/// as it is.
pub open spec fn attached_spec(frames: Seq<(Seq<char>, FrameModel)>, id: Seq<char>, parent: Seq<char>) -> Seq<(Seq<char>, FrameModel)> {
    match frame_index(frames, id) {
        Some(_) => frames,
        None => frames.push((id, FrameModel { parent: if parent.len() == 0 { None } else { Some(parent) }, ..blank_frame() })),
    }
}

/// `frames` after `Page.frameDetached`: the frame is forgotten.
pub open spec fn detached_spec(frames: Seq<(Seq<char>, FrameModel)>, id: Seq<char>) -> Seq<(Seq<char>, FrameModel)> {
    match frame_index(frames, id) {
        Some(i) => frames.remove(i),
        None => frames,
    }
}

/// `frames` after an execution context is created for the frame `id`: the
/// frame (made known if it was not) gets the context.
pub open spec fn with_context_spec(frames: Seq<(Seq<char>, FrameModel)>, id: Seq<char>, context: i64) -> Seq<(Seq<char>, FrameModel)> {
    match frame_index(frames, id) {
        Some(i) => frames.update(i, (id, FrameModel { context: Some(context), ..frames[i].1 })),
        None => frames.push((id, FrameModel { context: Some(context), ..blank_frame() })),
    }
}

/// A frame that was attached can be found, with the parent it was attached
/// with when it was not known before; attaching leaves every other frame as
/// it was.
pub proof fn lemma_attached_found(frames: Seq<(Seq<char>, FrameModel)>, id: Seq<char>, parent: Seq<char>, other: Seq<char>)
    requires
        ids_distinct(frames),
    ensures
        ids_distinct(attached_spec(frames, id, parent)),
        lookup(attached_spec(frames, id, parent), id) == match lookup(frames, id) {
            Some(m) => Some(m),
            None => Some(FrameModel { parent: if parent.len() == 0 { None } else { Some(parent) }, ..blank_frame() }),
        },
        other != id ==> lookup(attached_spec(frames, id, parent), other) == lookup(frames, other),
{
    lemma_frame_index(frames, id);
    lemma_frame_index(frames, other);
    let next = attached_spec(frames, id, parent);
    if frame_index(frames, id) is None {
        assert forall|i: int, j: int| 0 <= i < j < next.len() implies next[i].0 != next[j].0 by {
            if j < frames.len() {
                assert(next[i] == frames[i] && next[j] == frames[j]);
            } else {
                assert(next[i] == frames[i]);
            }
        }
        lemma_frame_index(next, id);
        assert(next[frames.len() as int].0 == id);
        lemma_frame_index(next, other);
        if other != id {
            match frame_index(frames, other) {
                Some(k) => {
                    assert(next[k] == frames[k]);
                },
                None => {
                    assert forall|k: int| 0 <= k < next.len() implies next[k].0 != other by {
                        if k < frames.len() {
                            assert(next[k] == frames[k]);
                        }
                    }
                },
            }
        }
    }
}

/// A detached frame is no longer found; every other frame is found as it was.
pub proof fn lemma_detached_forgotten(frames: Seq<(Seq<char>, FrameModel)>, id: Seq<char>, other: Seq<char>)
    requires
        ids_distinct(frames),
    ensures
        ids_distinct(detached_spec(frames, id)),
        lookup(detached_spec(frames, id), id) is None,
        other != id ==> lookup(detached_spec(frames, id), other) == lookup(frames, other),
{
    lemma_frame_index(frames, id);
    lemma_frame_index(frames, other);
    let next = detached_spec(frames, id);
    match frame_index(frames, id) {
        Some(x) => {
            assert forall|i: int, j: int| 0 <= i < j < next.len() implies next[i].0 != next[j].0 by {
                let bi = if i < x { i } else { i + 1 };
                let bj = if j < x { j } else { j + 1 };
                assert(next[i] == frames[bi] && next[j] == frames[bj]);
            }
            lemma_frame_index(next, id);
            assert forall|k: int| 0 <= k < next.len() implies next[k].0 != id by {
                let bk = if k < x { k } else { k + 1 };
                assert(next[k] == frames[bk]);
            }
            lemma_frame_index(next, other);
            if other != id {
                match frame_index(frames, other) {
                    Some(k) => {
                        let nk = if k < x { k } else { k - 1 };
                        assert(next[nk] == frames[k]);
                    },
                    None => {
                        assert forall|k: int| 0 <= k < next.len() implies next[k].0 != other by {
                            let bk = if k < x { k } else { k + 1 };
                            assert(next[k] == frames[bk]);
                        }
                    },
                }
            }
        },
        None => {},
    }
}

/// The context created last for a frame is the one found for it; creating a
/// context leaves every other frame as it was.
pub proof fn lemma_context_found(frames: Seq<(Seq<char>, FrameModel)>, id: Seq<char>, context: i64, other: Seq<char>)
    requires
        ids_distinct(frames),
    ensures
        ids_distinct(with_context_spec(frames, id, context)),
        lookup(with_context_spec(frames, id, context), id) == Some(match lookup(frames, id) {
            Some(m) => FrameModel { context: Some(context), ..m },
            None => FrameModel { context: Some(context), ..blank_frame() },
        }),
        other != id ==> lookup(with_context_spec(frames, id, context), other) == lookup(frames, other),
{
    lemma_frame_index(frames, id);
    lemma_frame_index(frames, other);
    let next = with_context_spec(frames, id, context);
    assert forall|i: int, j: int| 0 <= i < j < next.len() implies next[i].0 != next[j].0 by {
        if j < frames.len() {
            assert(next[i].0 == frames[i].0 && next[j].0 == frames[j].0);
        } else {
            assert(next[i].0 == frames[i].0);
        }
    }
    lemma_frame_index(next, id);
    lemma_frame_index(next, other);
    match frame_index(frames, id) {
        Some(x) => {
            assert(next[x].0 == id);
        },
        None => {
            assert(next[frames.len() as int].0 == id);
        },
    }
    if other != id {
        match frame_index(frames, other) {
            Some(k) => {
                assert(next[k] == frames[k]);
            },
            None => {
                assert forall|k: int| 0 <= k < next.len() implies next[k].0 != other by {
                    if k < frames.len() {
                        assert(next[k].0 == frames[k].0);
                    }
                }
            },
        }
    }
}

/// A frame model without the context `context`: the context is dropped when
/// it is that one.
pub open spec fn drop_context(m: FrameModel, context: i64) -> FrameModel {
    if m.context == Some(context) {
        FrameModel { context: None, ..m }
    } else {
        m
    }
}

/// `frames` after the execution context `context` is destroyed: every frame
/// with that context loses it.
pub open spec fn destroyed_spec(frames: Seq<(Seq<char>, FrameModel)>, context: i64) -> Seq<(Seq<char>, FrameModel)> {
    frames.map_values(|e: (Seq<char>, FrameModel)| (e.0, drop_context(e.1, context)))
}

/// After an execution context is destroyed no frame is found with it, every
/// frame is still found, and a frame with another context keeps it.
pub proof fn lemma_destroyed_context_gone(frames: Seq<(Seq<char>, FrameModel)>, context: i64, id: Seq<char>)
    requires
        ids_distinct(frames),
    ensures
        ids_distinct(destroyed_spec(frames, context)),
        lookup(destroyed_spec(frames, context), id) == match lookup(frames, id) {
            Some(m) => Some(drop_context(m, context)),
            None => None,
        },
        lookup(destroyed_spec(frames, context), id) matches Some(m) ==> m.context != Some(context),
{
    let next = destroyed_spec(frames, context);
    assert forall|i: int, j: int| 0 <= i < j < next.len() implies next[i].0 != next[j].0 by {
        assert(next[i].0 == frames[i].0 && next[j].0 == frames[j].0);
    }
    lemma_frame_index(frames, id);
    lemma_frame_index(next, id);
    match frame_index(frames, id) {
        Some(x) => {
            assert(next[x].0 == id);
        },
        None => {
            assert forall|k: int| 0 <= k < next.len() implies next[k].0 != id by {
                assert(next[k].0 == frames[k].0);
            }
        },
    }
}

/// `frames` after `Page.frameNavigated` for `frame`: a known frame takes the
/// frame's parent, URL and name and loses its execution context; an unknown
/// frame stays unknown.
pub open spec fn navigated_spec(frames: Seq<(Seq<char>, FrameModel)>, frame: Frame) -> Seq<(Seq<char>, FrameModel)> {
    match frame_index(frames, frame.id@) {
        Some(i) => frames.update(
            i,
            (frame.id@, FrameModel { parent: opt_view(frame.parent_id), url: frame.url@, name: frame.name@, context: None }),
        ),
        None => frames,
    }
}

/// A navigated frame is found with what the navigation reported and without
/// a context; navigation does not make an unknown frame known, and leaves
/// every other frame as it was.
pub proof fn lemma_navigated_found(frames: Seq<(Seq<char>, FrameModel)>, frame: Frame, other: Seq<char>)
    requires
        ids_distinct(frames),
    ensures
        ids_distinct(navigated_spec(frames, frame)),
        lookup(navigated_spec(frames, frame), frame.id@) == match lookup(frames, frame.id@) {
            Some(_) => Some(FrameModel { parent: opt_view(frame.parent_id), url: frame.url@, name: frame.name@, context: None }),
            None => None,
        },
        other != frame.id@ ==> lookup(navigated_spec(frames, frame), other) == lookup(frames, other),
{
    let id = frame.id@;
    lemma_frame_index(frames, id);
    lemma_frame_index(frames, other);
    let next = navigated_spec(frames, frame);
    assert forall|i: int, j: int| 0 <= i < j < next.len() implies next[i].0 != next[j].0 by {
        assert(next[i].0 == frames[i].0 && next[j].0 == frames[j].0);
    }
    lemma_frame_index(next, id);
    lemma_frame_index(next, other);
    if let Some(x) = frame_index(frames, id) {
        assert(next[x].0 == id);
    }
    if other != id {
        match frame_index(frames, other) {
            Some(k) => {
                assert(next[k] == frames[k]);
            },
            None => {
                assert forall|k: int| 0 <= k < next.len() implies next[k].0 != other by {
                    assert(next[k].0 == frames[k].0);
                }
            },
        }
    }
}

/// What a page knows of its frames and navigations.
#[derive(Debug)]
pub struct PageFrames {
    frames: Vec<(String, FrameInfo)>,
    main_frame_id: Option<String>,
    url: String,
    navigations: Vec<NavigationEvent>,
}

/// The model of a navigation record.
pub open spec fn navigation_view(n: NavigationEvent) -> (Seq<char>, Seq<char>, Option<Seq<char>>, Seq<char>) {
    (n.url@, n.frame_id@, opt_view(n.loader_id), n.mime_type@)
}

/// The models of navigation records.
pub open spec fn navigations_view(v: Seq<NavigationEvent>) -> Seq<(Seq<char>, Seq<char>, Option<Seq<char>>, Seq<char>)> {
    v.map_values(|n: NavigationEvent| navigation_view(n))
}

/// The position of the frame `id` in `frames`.
fn find_frame(frames: &Vec<(String, FrameInfo)>, id: &String) -> (r: Option<usize>)
    requires
        ids_distinct(frames_view(frames@)),
    ensures
        match r {
            Some(i) => i < frames@.len() && frame_index(frames_view(frames@), id@) == Some(i as int),
            None => frame_index(frames_view(frames@), id@) is None,
        },
{
    let ghost table = frames_view(frames@);
    proof {
        lemma_frame_index(table, id@);
    }
    let mut i: usize = 0;
    while i < frames.len()
        invariant
            i <= frames@.len(),
            table == frames_view(frames@),
            table.len() == frames@.len(),
            ids_distinct(table),
            forall|k: int| 0 <= k < i ==> table[k].0 != id@,
        decreases frames@.len() - i,
    {
        if frames[i].0 == *id {
            proof {
                lemma_frame_index(table, id@);
                assert(table[i as int].0 == id@);
            }
            return Some(i);
        }
        i += 1;
    }
    None
}

impl PageFrames {
    /// The known frames, in the order they became known.
    pub closed spec fn frame_table(self) -> Seq<(Seq<char>, FrameModel)> {
        frames_view(self.frames@)
    }

    /// The main frame's id, once known.
    pub closed spec fn main_id(self) -> Option<Seq<char>> {
        opt_view(self.main_frame_id)
    }

    /// The page URL.
    pub closed spec fn page_url(self) -> Seq<char> {
        self.url@
    }

    /// The committed main-frame navigations, oldest first.
    pub closed spec fn navigation_log(self) -> Seq<(Seq<char>, Seq<char>, Option<Seq<char>>, Seq<char>)> {
        navigations_view(self.navigations@)
    }

    /// No frame is known twice.
    #[verifier::type_invariant]
    spec fn frames_distinct(self) -> bool {
        ids_distinct(frames_view(self.frames@))
    }

    /// A page that knows nothing yet.
    pub fn new() -> (r: PageFrames)
        ensures
            ids_distinct(r.frame_table()),
            r.frame_table().len() == 0,
            r.main_id() is None,
            r.page_url().len() == 0,
            r.navigation_log().len() == 0,
    {
        let r = PageFrames { frames: Vec::new(), main_frame_id: None, url: String::new(), navigations: Vec::new() };
        assert(r.frame_table() =~= seq![]);
        assert(r.navigation_log() =~= seq![]);
        r
    }

    /// `Page.frameAttached`: a frame not known yet becomes known with its
    /// parent (none when the parent id is empty); a known frame is left as
    /// it is.
    pub fn frame_attached(&mut self, frame_id: &str, parent_frame_id: &str)
        ensures
            ids_distinct(final(self).frame_table()),
            final(self).frame_table() == attached_spec(old(self).frame_table(), frame_id@, parent_frame_id@),
            final(self).main_id() == old(self).main_id(),
            final(self).page_url() == old(self).page_url(),
            final(self).navigation_log() == old(self).navigation_log(),
    {
        proof {
            use_type_invariant(&*self);
        }
        let mut frames: Vec<(String, FrameInfo)> = Vec::new();
        std::mem::swap(&mut frames, &mut self.frames);
        let ghost before = frames_view(frames@);
        let id = str_from(frame_id);
        if find_frame(&frames, &id).is_none() {
            let info = FrameInfo { parent_id: non_empty(parent_frame_id), url: String::new(), name: String::new(), execution_context_id: None };
            proof {
                lemma_frame_index(before, frame_id@);
                lemma_upsert_distinct(before, frame_id@, info@);
            }
            frames.push((id, info));
            assert(frames_view(frames@) =~= before.push((frame_id@, info@)));
        }
        self.frames = frames;
    }

    /// `Page.frameDetached`: the frame is forgotten.
    pub fn frame_detached(&mut self, frame_id: &str)
        ensures
            ids_distinct(final(self).frame_table()),
            final(self).frame_table() == detached_spec(old(self).frame_table(), frame_id@),
            final(self).main_id() == old(self).main_id(),
            final(self).page_url() == old(self).page_url(),
            final(self).navigation_log() == old(self).navigation_log(),
    {
        proof {
            use_type_invariant(&*self);
        }
        let mut frames: Vec<(String, FrameInfo)> = Vec::new();
        std::mem::swap(&mut frames, &mut self.frames);
        let ghost before = frames_view(frames@);
        let id = str_from(frame_id);
        if let Some(i) = find_frame(&frames, &id) {
            frames.remove(i);
            assert(frames_view(frames@) =~= before.remove(i as int));
            assert forall|x: int, y: int| 0 <= x < y < frames_view(frames@).len() implies frames_view(frames@)[x].0
                != frames_view(frames@)[y].0 by {
                let bx = if x < i { x } else { x + 1 };
                let by_ = if y < i { y } else { y + 1 };
                assert(frames_view(frames@)[x] == before[bx]);
                assert(frames_view(frames@)[y] == before[by_]);
            }
        }
        self.frames = frames;
    }

    /// `Page.frameNavigated`: a known frame takes the new URL, parent and
    /// name and loses its execution context; a frame without a parent is
    /// the main frame, whose navigation sets the page URL and is recorded.
    pub fn frame_navigated(&mut self, frame: &Frame)
        ensures
            ids_distinct(final(self).frame_table()),
            final(self).frame_table() == navigated_spec(old(self).frame_table(), *frame),
            frame.parent_id is None ==> final(self).main_id() == Some(frame.id@) && final(self).page_url() == frame.url@
                && final(self).navigation_log() == old(self).navigation_log().push(
                (frame.url@, frame.id@, opt_view(frame.loader_id), frame.mime_type@),
            ),
            frame.parent_id is Some ==> final(self).main_id() == old(self).main_id() && final(self).page_url() == old(
                self,
            ).page_url() && final(self).navigation_log() == old(self).navigation_log(),
    {
        proof {
            use_type_invariant(&*self);
        }
        let mut frames: Vec<(String, FrameInfo)> = Vec::new();
        std::mem::swap(&mut frames, &mut self.frames);
        let ghost before = frames_view(frames@);
        if let Some(i) = find_frame(&frames, &frame.id) {
            let info = FrameInfo {
                parent_id: clone_opt(&frame.parent_id),
                url: frame.url.clone(),
                name: frame.name.clone(),
                execution_context_id: None,
            };
            proof {
                lemma_frame_index(before, frame.id@);
                lemma_upsert_distinct(before, frame.id@, info@);
            }
            frames.set(i, (frame.id.clone(), info));
            assert(frames_view(frames@) =~= before.update(i as int, (frame.id@, info@)));
        }
        self.frames = frames;
        if frame.parent_id.is_none() {
            let ghost nav_before = self.navigation_log();
            self.main_frame_id = Some(frame.id.clone());
            self.url = frame.url.clone();
            let nav = NavigationEvent {
                url: frame.url.clone(),
                frame_id: frame.id.clone(),
                loader_id: clone_opt(&frame.loader_id),
                mime_type: frame.mime_type.clone(),
            };
            let mut navigations: Vec<NavigationEvent> = Vec::new();
            std::mem::swap(&mut navigations, &mut self.navigations);
            navigations.push(nav);
            self.navigations = navigations;
            assert(self.navigation_log() =~= nav_before.push(navigation_view(nav)));
        }
    }

    /// `Runtime.executionContextCreated` for the frame `frame_id`: the frame
    /// (made known if it was not) gets the context.
    pub fn context_created(&mut self, frame_id: &str, context_id: i64)
        ensures
            ids_distinct(final(self).frame_table()),
            final(self).frame_table() == with_context_spec(old(self).frame_table(), frame_id@, context_id),
            final(self).main_id() == old(self).main_id(),
            final(self).page_url() == old(self).page_url(),
            final(self).navigation_log() == old(self).navigation_log(),
    {
        proof {
            use_type_invariant(&*self);
        }
        let mut frames: Vec<(String, FrameInfo)> = Vec::new();
        std::mem::swap(&mut frames, &mut self.frames);
        let ghost before = frames_view(frames@);
        let id = str_from(frame_id);
        proof {
            lemma_frame_index(before, frame_id@);
        }
        match find_frame(&frames, &id) {
            Some(i) => {
                let old_info = &frames[i].1;
                let info = FrameInfo {
                    parent_id: clone_opt(&old_info.parent_id),
                    url: old_info.url.clone(),
                    name: old_info.name.clone(),
                    execution_context_id: Some(context_id),
                };
                proof {
                    lemma_upsert_distinct(before, frame_id@, info@);
                }
                frames.set(i, (id, info));
                assert(frames_view(frames@) =~= before.update(
                    i as int,
                    (frame_id@, FrameModel { context: Some(context_id), ..before[i as int].1 }),
                ));
            },
            None => {
                let info = FrameInfo { parent_id: None, url: String::new(), name: String::new(), execution_context_id: Some(context_id) };
                proof {
                    lemma_upsert_distinct(before, frame_id@, info@);
                }
                frames.push((id, info));
                assert(frames_view(frames@) =~= before.push((frame_id@, info@)));
            },
        }
        self.frames = frames;
    }

    /// `Runtime.executionContextDestroyed`: every frame with that context
    /// loses it.
    pub fn context_destroyed(&mut self, context_id: i64)
        ensures
            ids_distinct(final(self).frame_table()),
            final(self).frame_table() == destroyed_spec(old(self).frame_table(), context_id),
            final(self).main_id() == old(self).main_id(),
            final(self).page_url() == old(self).page_url(),
            final(self).navigation_log() == old(self).navigation_log(),
    {
        proof {
            use_type_invariant(&*self);
        }
        let mut frames: Vec<(String, FrameInfo)> = Vec::new();
        std::mem::swap(&mut frames, &mut self.frames);
        let ghost before = frames_view(frames@);
        let mut i: usize = 0;
        while i < frames.len()
            invariant
                i <= frames@.len(),
                frames@.len() == before.len(),
                ids_distinct(before),
                forall|k: int| 0 <= k < before.len() ==> #[trigger] frames_view(frames@)[k].0 == before[k].0,
                forall|k: int|
                    0 <= k < i ==> #[trigger] frames_view(frames@)[k] == (
                    before[k].0,
                    if before[k].1.context == Some(context_id) {
                        FrameModel { context: None, ..before[k].1 }
                    } else {
                        before[k].1
                    },
                ),
                forall|k: int| i <= k < before.len() ==> #[trigger] frames_view(frames@)[k] == before[k],
            decreases frames@.len() - i,
        {
            let same = match frames[i].1.execution_context_id {
                Some(c) => c == context_id,
                None => false,
            };
            if same {
                let old_entry = &frames[i];
                let entry = (
                    old_entry.0.clone(),
                    FrameInfo {
                        parent_id: clone_opt(&old_entry.1.parent_id),
                        url: old_entry.1.url.clone(),
                        name: old_entry.1.name.clone(),
                        execution_context_id: None,
                    },
                );
                let ghost prev = frames_view(frames@);
                assert(prev[i as int] == (frames@[i as int].0@, frames@[i as int].1@));
                assert(entry.0@ == prev[i as int].0);
                assert(entry.1@ == FrameModel { context: None, ..prev[i as int].1 });
                frames.set(i, entry);
                assert(frames_view(frames@) =~= prev.update(i as int, (entry.0@, entry.1@)));
            }
            i += 1;
        }
        assert(forall|x: int| 0 <= x < before.len() ==> #[trigger] frames_view(frames@)[x].0 == before[x].0);
        assert(ids_distinct(frames_view(frames@)));
        self.frames = frames;
    }

    /// The frame `frame_id`, if known.
    pub fn frame_info(&self, frame_id: &str) -> (r: Option<FrameInfo>)
        ensures
            match lookup(self.frame_table(), frame_id@) {
                Some(m) => r matches Some(f) && f@ == m,
                None => r is None,
            },
    {
        proof {
            use_type_invariant(self);
        }
        let id = str_from(frame_id);
        match find_frame(&self.frames, &id) {
            Some(i) => {
                let f = &self.frames[i].1;
                Some(FrameInfo { parent_id: clone_opt(&f.parent_id), url: f.url.clone(), name: f.name.clone(), execution_context_id: f.execution_context_id })
            },
            None => None,
        }
    }

    /// The execution context of the frame `frame_id`, when the frame is
    /// known and has one.
    pub fn execution_context_id(&self, frame_id: Option<&str>) -> (r: Option<i64>)
        ensures
            r == match frame_id {
                Some(id) => match lookup(self.frame_table(), id@) {
                    Some(m) => m.context,
                    None => None,
                },
                None => None,
            },
    {
        proof {
            use_type_invariant(self);
        }
        match frame_id {
            None => None,
            Some(id) => {
                let key = str_from(id);
                match find_frame(&self.frames, &key) {
                    Some(i) => self.frames[i].1.execution_context_id,
                    None => None,
                }
            },
        }
    }

    /// The execution context to evaluate in for `frame_id`: none (the main
    /// frame's default) when no frame is named, the frame's context when it
    /// has one, else a JavaScript error saying that it is not available yet.
    pub fn expect_context_id(&self, frame_id: Option<&str>) -> (r: Result<Option<i64>, crate::error::AutomationError>)
        ensures
            match frame_id {
                None => r == Ok::<Option<i64>, crate::error::AutomationError>(None),
                Some(id) => match lookup(self.frame_table(), id@) {
                    Some(m) if m.context is Some => r == Ok::<Option<i64>, crate::error::AutomationError>(m.context),
                    _ => r matches Err(crate::error::AutomationError::JavaScript(msg))
                        && msg@ == "execution context for frame "@ + id@ + " is not available yet"@,
                },
            },
    {
        match frame_id {
            None => Ok(None),
            Some(id) => match self.execution_context_id(Some(id)) {
                Some(c) => Ok(Some(c)),
                None => {
                    let mut v = crate::text::chars_of("execution context for frame ");
                    crate::text::append_str(&mut v, id);
                    crate::text::append_str(&mut v, " is not available yet");
                    Err(crate::error::AutomationError::JavaScript(crate::text::string_of(&v)))
                },
            },
        }
    }

    /// The main frame's id, or the empty string before it is known.
    pub fn main_frame_id(&self) -> (r: String)
        ensures
            r@ == match self.main_id() {
                Some(id) => id,
                None => Seq::<char>::empty(),
            },
    {
        match &self.main_frame_id {
            Some(id) => id.clone(),
            None => String::new(),
        }
    }

    /// The committed main-frame navigations, oldest first.
    pub fn navigations(&self) -> (r: Vec<NavigationEvent>)
        ensures
            navigations_view(r@) == self.navigation_log(),
    {
        let mut out: Vec<NavigationEvent> = Vec::new();
        let mut i: usize = 0;
        while i < self.navigations.len()
            invariant
                i <= self.navigations@.len(),
                navigations_view(out@) == navigations_view(self.navigations@.take(i as int)),
            decreases self.navigations@.len() - i,
        {
            let n = &self.navigations[i];
            let copy = NavigationEvent {
                url: n.url.clone(),
                frame_id: n.frame_id.clone(),
                loader_id: clone_opt(&n.loader_id),
                mime_type: n.mime_type.clone(),
            };
            let ghost before = out@;
            out.push(copy);
            assert(navigations_view(out@) =~= navigations_view(before).push(navigation_view(*n)));
            assert(navigations_view(self.navigations@.take(i + 1)) =~= navigations_view(self.navigations@.take(i as int)).push(
                navigation_view(*n),
            ));
            i += 1;
        }
        assert(self.navigations@.take(self.navigations@.len() as int) =~= self.navigations@);
        out
    }

    /// The page URL.
    pub fn url(&self) -> (r: String)
        ensures
            r@ == self.page_url(),
    {
        self.url.clone()
    }

    /// Every known frame as its id and whether it is the main frame, the
    /// main frame first and the others in the order they became known.
    pub fn frame_ids(&self) -> (r: Vec<(String, bool)>)
        ensures
            r@.map_values(|e: (String, bool)| (e.0@, e.1)) == main_first(self.frame_table(), self.main_id()),
    {
        let ghost table = self.frame_table();
        let mut mains: Vec<(String, bool)> = Vec::new();
        let mut others: Vec<(String, bool)> = Vec::new();
        let mut i: usize = 0;
        while i < self.frames.len()
            invariant
                i <= self.frames@.len(),
                table == self.frame_table(),
                table.len() == self.frames@.len(),
                mains@.map_values(|e: (String, bool)| (e.0@, e.1)) == table.take(i as int).filter(
                    |e: (Seq<char>, FrameModel)| Some(e.0) == self.main_id(),
                ).map_values(|e: (Seq<char>, FrameModel)| (e.0, true)),
                others@.map_values(|e: (String, bool)| (e.0@, e.1)) == table.take(i as int).filter(
                    |e: (Seq<char>, FrameModel)| Some(e.0) != self.main_id(),
                ).map_values(|e: (Seq<char>, FrameModel)| (e.0, false)),
            decreases self.frames@.len() - i,
        {
            let id = &self.frames[i].0;
            let is_main = match &self.main_frame_id {
                Some(m) => *m == *id,
                None => false,
            };
            proof {
                reveal(Seq::filter);
                let pre = table.take(i + 1);
                assert(pre.drop_last() =~= table.take(i as int));
                assert(pre.last() == table[i as int]);
                assert(table[i as int].0 == id@);
            }
            let ghost m0 = mains@;
            let ghost o0 = others@;
            if is_main {
                mains.push((id.clone(), true));
                assert(mains@.map_values(|e: (String, bool)| (e.0@, e.1)) =~= m0.map_values(|e: (String, bool)| (e.0@, e.1)).push((id@, true)));
            } else {
                others.push((id.clone(), false));
                assert(others@.map_values(|e: (String, bool)| (e.0@, e.1)) =~= o0.map_values(|e: (String, bool)| (e.0@, e.1)).push((id@, false)));
            }
            proof {
                reveal(Seq::filter);
                let pre = table.take(i + 1);
                assert(pre.filter(|e: (Seq<char>, FrameModel)| Some(e.0) == self.main_id()).map_values(|e: (Seq<char>, FrameModel)| (e.0, true))
                    =~= mains@.map_values(|e: (String, bool)| (e.0@, e.1)));
                assert(pre.filter(|e: (Seq<char>, FrameModel)| Some(e.0) != self.main_id()).map_values(|e: (Seq<char>, FrameModel)| (e.0, false))
                    =~= others@.map_values(|e: (String, bool)| (e.0@, e.1)));
            }
            i += 1;
        }
        let ghost mv = mains@.map_values(|e: (String, bool)| (e.0@, e.1));
        let ghost ov = others@.map_values(|e: (String, bool)| (e.0@, e.1));
        append_flagged(&mut mains, others);
        assert(table.take(table.len() as int) =~= table);
        assert(mains@.map_values(|e: (String, bool)| (e.0@, e.1)) =~= mv + ov);
        mains
    }
}

/// The frames of a frame tree in the order a page records them: the frame,
/// then the subtrees of its children from the last child to the first.
pub open spec fn tree_frames(t: FrameTree) -> Seq<Frame>
    decreases t,
{
    seq![t.frame] + subtree_frames(t.child_frames@)
}

/// The frames of the subtrees `cs`, the last subtree first.
pub open spec fn subtree_frames(cs: Seq<FrameTree>) -> Seq<Frame>
    decreases cs,
{
    if cs.len() == 0 {
        seq![]
    } else {
        tree_frames(cs.last()) + subtree_frames(cs.drop_last())
    }
}

/// What a frame of a frame tree tells of itself.
pub open spec fn frame_model(f: Frame) -> FrameModel {
    FrameModel { parent: opt_view(f.parent_id), url: f.url@, name: f.name@, context: None }
}

/// `table` with each of `frames` recorded in turn (see [`upsert`]).
pub open spec fn upsert_frames(table: Seq<(Seq<char>, FrameModel)>, frames: Seq<Frame>) -> Seq<(Seq<char>, FrameModel)>
    decreases frames.len(),
{
    if frames.len() == 0 {
        table
    } else {
        upsert_frames(upsert(table, frames[0].id@, frame_model(frames[0])), frames.drop_first())
    }
}

proof fn lemma_upsert_frames_concat(table: Seq<(Seq<char>, FrameModel)>, a: Seq<Frame>, b: Seq<Frame>)
    ensures
        upsert_frames(table, a + b) == upsert_frames(upsert_frames(table, a), b),
    decreases a.len(),
{
    if a.len() == 0 {
        assert(a + b =~= b);
    } else {
        assert((a + b).drop_first() =~= a.drop_first() + b);
        assert((a + b)[0] == a[0]);
        lemma_upsert_frames_concat(upsert(table, a[0].id@, frame_model(a[0])), a.drop_first(), b);
    }
}

proof fn lemma_upsert_distinct(table: Seq<(Seq<char>, FrameModel)>, id: Seq<char>, model: FrameModel)
    requires
        ids_distinct(table),
    ensures
        ids_distinct(upsert(table, id, model)),
{
    lemma_frame_index(table, id);
    let next = upsert(table, id, model);
    assert forall|i: int, j: int| 0 <= i < j < next.len() implies next[i].0 != next[j].0 by {
        if j == table.len() {
            assert(next[i].0 == table[i].0);
        } else {
            match frame_index(table, id) {
                Some(x) => {
                    if i != x {
                        assert(next[i].0 == table[i].0);
                    }
                    if j != x {
                        assert(next[j].0 == table[j].0);
                    }
                },
                None => {
                    assert(next[i].0 == table[i].0 && next[j].0 == table[j].0);
                },
            }
        }
    }
}

/// Records `frame` as a frame tree describes it (see [`upsert`]).
fn upsert_frame(frames: &mut Vec<(String, FrameInfo)>, frame: &Frame)
    requires
        ids_distinct(frames_view(old(frames)@)),
    ensures
        ids_distinct(frames_view(final(frames)@)),
        frames_view(final(frames)@) == upsert(frames_view(old(frames)@), frame.id@, frame_model(*frame)),
{
    let ghost before = frames_view(frames@);
    proof {
        lemma_upsert_distinct(before, frame.id@, frame_model(*frame));
        lemma_frame_index(before, frame.id@);
    }
    let info = FrameInfo { parent_id: clone_opt(&frame.parent_id), url: frame.url.clone(), name: frame.name.clone(), execution_context_id: None };
    match find_frame(frames, &frame.id) {
        Some(i) => {
            frames.set(i, (frame.id.clone(), info));
            assert(frames_view(frames@) =~= before.update(i as int, (frame.id@, info@)));
        },
        None => {
            frames.push((frame.id.clone(), info));
            assert(frames_view(frames@) =~= before.push((frame.id@, info@)));
        },
    }
}

/// Records the frame tree `t` (see [`tree_frames`]).
fn record_tree(frames: &mut Vec<(String, FrameInfo)>, t: &FrameTree)
    requires
        ids_distinct(frames_view(old(frames)@)),
    ensures
        ids_distinct(frames_view(final(frames)@)),
        frames_view(final(frames)@) == upsert_frames(frames_view(old(frames)@), tree_frames(*t)),
    decreases t, 0nat,
{
    let ghost before = frames_view(frames@);
    upsert_frame(frames, &t.frame);
    proof {
        assert(decreases_to!(*t => t.child_frames));
    }
    record_subtrees(frames, &t.child_frames, t.child_frames.len());
    proof {
        let first = seq![t.frame];
        let rest = subtree_frames(t.child_frames@.take(t.child_frames@.len() as int));
        assert(t.child_frames@.take(t.child_frames@.len() as int) =~= t.child_frames@);
        lemma_upsert_frames_concat(before, first, rest);
        assert(first.drop_first() =~= Seq::<Frame>::empty());
        let one = upsert(before, t.frame.id@, frame_model(t.frame));
        assert(upsert_frames(one, first.drop_first()) == one);
        assert(upsert_frames(before, first) == one);
    }
}

/// Records the first `n` of the subtrees `cs`, the last of them first.
fn record_subtrees(frames: &mut Vec<(String, FrameInfo)>, cs: &Vec<FrameTree>, n: usize)
    requires
        ids_distinct(frames_view(old(frames)@)),
        n <= cs@.len(),
    ensures
        ids_distinct(frames_view(final(frames)@)),
        frames_view(final(frames)@) == upsert_frames(frames_view(old(frames)@), subtree_frames(cs@.take(n as int))),
    decreases cs, n,
{
    if n == 0 {
        assert(cs@.take(0) =~= Seq::<FrameTree>::empty());
        return;
    }
    let ghost before = frames_view(frames@);
    proof {
        assert(decreases_to!(*cs => cs@));
        assert(decreases_to!(cs@ => cs@[n - 1]));
    }
    record_tree(frames, &cs[n - 1]);
    record_subtrees(frames, cs, n - 1);
    proof {
        let pre = cs@.take(n as int);
        assert(pre.drop_last() =~= cs@.take(n - 1));
        assert(pre.last() == cs@[n - 1]);
        lemma_upsert_frames_concat(before, tree_frames(cs@[n - 1]), subtree_frames(cs@.take(n - 1)));
    }
}

impl PageFrames {
    /// The frames of a fresh `Page.getFrameTree`: every frame known before
    /// is forgotten, the tree's frames are recorded (see [`tree_frames`]) and
    /// its root is the main frame.
    pub fn seed(&mut self, tree: &FrameTree)
        ensures
            ids_distinct(final(self).frame_table()),
            final(self).frame_table() == upsert_frames(seq![], tree_frames(*tree)),
            final(self).main_id() == Some(tree.frame.id@),
            final(self).page_url() == old(self).page_url(),
            final(self).navigation_log() == old(self).navigation_log(),
    {
        let mut frames: Vec<(String, FrameInfo)> = Vec::new();
        assert(frames_view(frames@) =~= seq![]);
        record_tree(&mut frames, tree);
        self.frames = frames;
        self.main_frame_id = Some(tree.frame.id.clone());
    }
}

/// A marked lifecycle state is reached; marking a state leaves whether any
/// other state is reached as it was; after a reset no state is reached.
pub proof fn lemma_lifecycle_marks(reached: Set<Seq<char>>, name: Seq<char>, other: Seq<char>)
    ensures
        reached.insert(name).contains(name),
        other != name ==> reached.insert(name).contains(other) == reached.contains(other),
        !Set::<Seq<char>>::empty().contains(other),
{
}

/// The lifecycle states (`load`, `DOMContentLoaded`, ...) a page has reached.
#[derive(Debug)]
pub struct LifecycleStates {
    names: Vec<String>,
}

impl LifecycleStates {
    /// The states reached.
    pub closed spec fn reached(self) -> Set<Seq<char>> {
        self.names@.map_values(|n: String| n@).to_set()
    }

    /// No state reached yet.
    pub fn new() -> (r: LifecycleStates)
        ensures
            r.reached() == Set::<Seq<char>>::empty(),
    {
        let r = LifecycleStates { names: Vec::new() };
        assert(r.reached() =~= Set::<Seq<char>>::empty());
        r
    }

    /// Whether the state `name` has been reached.
    pub fn has(&self, name: &str) -> (r: bool)
        ensures
            r == self.reached().contains(name@),
    {
        let ghost names = self.names@.map_values(|n: String| n@);
        let key = str_from(name);
        let mut i: usize = 0;
        while i < self.names.len()
            invariant
                i <= self.names@.len(),
                names == self.names@.map_values(|n: String| n@),
                key@ == name@,
                forall|k: int| 0 <= k < i ==> names[k] != name@,
            decreases self.names@.len() - i,
        {
            assert(names[i as int] == self.names@[i as int]@);
            let same = self.names[i] == key;
            if same {
                assert(names[i as int] == name@);
                assert(names.contains(name@));
                assert(self.reached().contains(name@));
                return true;
            }
            assert(names[i as int] != name@);
            i += 1;
        }
        assert(!names.contains(name@));
        assert(!self.reached().contains(name@));
        false
    }

    /// Marks the state `name` as reached.
    pub fn mark(&mut self, name: &str)
        ensures
            final(self).reached() == old(self).reached().insert(name@),
    {
        if !self.has(name) {
            let ghost before = self.names@;
            self.names.push(str_from(name));
            assert(self.names@.map_values(|n: String| n@) =~= before.map_values(|n: String| n@).push(name@));
            proof {
                before.map_values(|n: String| n@).lemma_push_to_set_commute(name@);
            }
            assert(self.reached() =~= old(self).reached().insert(name@));
        } else {
            assert(self.reached().contains(name@));
            assert(self.reached() =~= self.reached().insert(name@));
        }
    }

    /// Forgets every state reached, before a navigation.
    pub fn reset(&mut self)
        ensures
            final(self).reached() == Set::<Seq<char>>::empty(),
    {
        self.names = Vec::new();
        assert(self.reached() =~= Set::<Seq<char>>::empty());
    }
}

/// The known frames as (id, is main) pairs: the main frame first, then the
/// others in the order they became known.
pub open spec fn main_first(table: Seq<(Seq<char>, FrameModel)>, main: Option<Seq<char>>) -> Seq<(Seq<char>, bool)> {
    table.filter(|e: (Seq<char>, FrameModel)| Some(e.0) == main).map_values(|e: (Seq<char>, FrameModel)| (e.0, true))
        + table.filter(|e: (Seq<char>, FrameModel)| Some(e.0) != main).map_values(|e: (Seq<char>, FrameModel)| (e.0, false))
}

fn append_flagged(v: &mut Vec<(String, bool)>, more: Vec<(String, bool)>)
    ensures
        final(v)@ == old(v)@ + more@,
{
    let n = more.len();
    let mut rest = more;
    let ghost start = v@;
    let ghost all = rest@;
    let mut i: usize = 0;
    while rest.len() > 0
        invariant
            i <= all.len(),
            n == all.len(),
            i + rest@.len() == all.len(),
            rest@ == all.skip(i as int),
            v@ == start + all.take(i as int),
        decreases rest@.len(),
    {
        let e = rest.remove(0);
        proof {
            assert(e == all[i as int]);
            assert(rest@ =~= all.skip(i + 1));
            assert(start + all.take(i + 1) =~= (start + all.take(i as int)).push(e));
        }
        v.push(e);
        i += 1;
    }
    assert(all.take(all.len() as int) =~= all);
}

fn clone_opt(o: &Option<String>) -> (r: Option<String>)
    ensures
        r == *o,
{
    match o {
        Some(s) => Some(s.clone()),
        None => None,
    }
}

}
