use crate::function::{Value, ValueS, dup_value};
use crate::token::streq;
use vstd::prelude::*;

verus! {

// Lexical scopes are held in an arena: a frame never moves, so a closure can
// keep its defining frame alive simply by remembering its index, and parent
// links always point to earlier frames, which makes every chain acyclic and
// terminated at the single global frame at index zero.
/// One scope frame: its bindings in declaration order, and the index of the
/// enclosing frame (`None` only for the global frame).  A name bound twice
/// shadows within the frame: the latest binding wins.
pub struct Frame {
    pub entries: Vec<(String, Value)>,
    pub parent: Option<usize>,
}

/// Mathematical image of a frame.
#[verifier::ext_equal]
pub struct FrameS {
    pub entries: Seq<(Seq<char>, ValueS)>,
    pub parent: Option<int>,
}

impl View for Frame {
    type V = FrameS;

    open spec fn view(&self) -> FrameS {
        FrameS {
            entries: self.entries@.map_values(|e: (String, Value)| (e.0@, e.1@)),
            parent: match self.parent {
                Some(p) => Some(p as int),
                None => None,
            },
        }
    }
}

pub open spec fn frames_view(s: Seq<Frame>) -> Seq<FrameS> {
    s.map_values(|f: Frame| f@)
}

/// A well-formed arena: the global frame first, with no parent, and every
/// later frame pointing at a strictly earlier one.
pub open spec fn wf_frames(frames: Seq<FrameS>) -> bool {
    frames.len() > 0 && frames[0].parent is None && (forall|i: int|
        1 <= i < frames.len() ==> ((#[trigger] frames[i].parent) matches Some(p) && 0 <= p < i))
}

/// The index of the latest binding of `name` in a frame, if any.
pub open spec fn last_match(entries: Seq<(Seq<char>, ValueS)>, name: Seq<char>) -> Option<int>
    decreases entries.len(),
{
    if entries.len() == 0 {
        None
    } else if entries.last().0 == name {
        Some(entries.len() - 1)
    } else {
        last_match(entries.drop_last(), name)
    }
}

pub proof fn last_match_props(entries: Seq<(Seq<char>, ValueS)>, name: Seq<char>)
    ensures
        match last_match(entries, name) {
            Some(i) => 0 <= i < entries.len() && entries[i].0 == name,
            None => forall|i: int| 0 <= i < entries.len() ==> entries[i].0 != name,
        },
    decreases entries.len(),
{
    if entries.len() > 0 {
        last_match_props(entries.drop_last(), name);
        if last_match(entries, name) is None {
            assert forall|i: int| 0 <= i < entries.len() implies entries[i].0 != name by {
                if i < entries.len() - 1 {
                    assert(entries.drop_last()[i] == entries[i]);
                }
            }
        }
    }
}

/// The value of the latest binding of `name` in a frame, if any.
pub open spec fn frame_lookup(entries: Seq<(Seq<char>, ValueS)>, name: Seq<char>) -> Option<
    ValueS,
> {
    match last_match(entries, name) {
        Some(i) => Some(entries[i].1),
        None => None,
    }
}

/// The value `name` has from frame `fi` outward along parent links, if it is
/// bound at any level.
pub open spec fn env_lookup(frames: Seq<FrameS>, fi: int, name: Seq<char>) -> Option<ValueS>
    decreases fi,
        when wf_frames(frames) && 0 <= fi < frames.len()
{
    match frame_lookup(frames[fi].entries, name) {
        Some(v) => Some(v),
        None => match frames[fi].parent {
            Some(p) => env_lookup(frames, p, name),
            None => None,
        },
    }
}

/// The nesting distance from frame `fi` to the frame that binds `name`,
/// if any: zero when `fi` itself binds it.
pub open spec fn env_depth(frames: Seq<FrameS>, fi: int, name: Seq<char>) -> Option<nat>
    decreases fi,
        when wf_frames(frames) && 0 <= fi < frames.len()
{
    if frame_lookup(frames[fi].entries, name) is Some {
        Some(0)
    } else {
        match frames[fi].parent {
            Some(p) => match env_depth(frames, p, name) {
                Some(d) => Some(d + 1),
                None => None,
            },
            None => None,
        }
    }
}

pub proof fn env_depth_bound(frames: Seq<FrameS>, fi: int, name: Seq<char>)
    requires
        wf_frames(frames),
        0 <= fi < frames.len(),
    ensures
        match env_depth(frames, fi, name) {
            Some(d) => d <= fi,
            None => true,
        },
    decreases fi,
{
    if frame_lookup(frames[fi].entries, name) is None {
        match frames[fi].parent {
            Some(p) => {
                env_depth_bound(frames, p, name);
            },
            None => {},
        }
    }
}

/// The arena after writing `v` over the nearest existing binding of `name`,
/// searching from frame `fi` outward; `None` when no frame binds it.
pub open spec fn env_assign(frames: Seq<FrameS>, fi: int, name: Seq<char>, v: ValueS) -> Option<
    Seq<FrameS>,
>
    decreases fi,
        when wf_frames(frames) && 0 <= fi < frames.len()
{
    match last_match(frames[fi].entries, name) {
        Some(i) => Some(
            frames.update(
                fi,
                FrameS {
                    entries: frames[fi].entries.update(i, (name, v)),
                    parent: frames[fi].parent,
                },
            ),
        ),
        None => match frames[fi].parent {
            Some(p) => env_assign(frames, p, name, v),
            None => None,
        },
    }
}

/// The arena after binding `name` to `v` in frame `fi` itself, shadowing any
/// enclosing binding.
pub open spec fn env_define(frames: Seq<FrameS>, fi: int, name: Seq<char>, v: ValueS) -> Seq<
    FrameS,
>
    recommends
        0 <= fi < frames.len(),
{
    frames.update(
        fi,
        FrameS { entries: frames[fi].entries.push((name, v)), parent: frames[fi].parent },
    )
}

/// The arena after opening a new empty frame whose parent is `fi`.
pub open spec fn env_push(frames: Seq<FrameS>, fi: int) -> Seq<FrameS> {
    frames.push(FrameS { entries: Seq::empty(), parent: Some(fi) })
}

/// The chained scope frames of one run.
pub struct Environment {
    pub frames: Vec<Frame>,
}

impl View for Environment {
    type V = Seq<FrameS>;

    open spec fn view(&self) -> Seq<FrameS> {
        frames_view(self.frames@)
    }
}

impl Environment {
    pub open spec fn wf(&self) -> bool {
        wf_frames(self@)
    }

    /// A fresh environment holding only the empty global frame.
    pub fn new() -> (r: Environment)
        ensures
            r.wf(),
            r@.len() == 1,
            r@[0].entries == Seq::<(Seq<char>, ValueS)>::empty(),
            r@[0].parent is None,
    {
        let mut frames: Vec<Frame> = Vec::new();
        frames.push(Frame { entries: Vec::new(), parent: None });
        let r = Environment { frames };
        proof {
            assert(r@[0].entries =~= Seq::<(Seq<char>, ValueS)>::empty());
        }
        r
    }

    /// Opens a new frame under parent `fi` and returns its index.
    pub fn push_frame(&mut self, fi: usize) -> (r: usize)
        requires
            old(self).wf(),
            fi < old(self)@.len(),
        ensures
            final(self).wf(),
            final(self)@ == env_push(old(self)@, fi as int),
            r == old(self)@.len(),
            final(self)@.len() == old(self)@.len() + 1,
    {
        let r = self.frames.len();
        self.frames.push(Frame { entries: Vec::new(), parent: Some(fi) });
        proof {
            assert(self@ =~~= env_push(old(self)@, fi as int));
            assert(self@[r as int].entries =~= Seq::<(Seq<char>, ValueS)>::empty());
            assert forall|i: int| 1 <= i < self@.len() implies ((#[trigger] self@[i].parent)
                matches Some(p) && 0 <= p < i) by {
                if i < old(self)@.len() {
                    assert((old(self)@[i].parent matches Some(p) && 0 <= p < i));
                }
            }
        }
        r
    }

    /// The latest binding of `name` in frame `fi` alone, as an equal copy.
    fn frame_get(&self, fi: usize, name: &String) -> (r: Option<Value>)
        requires
            self.wf(),
            fi < self@.len(),
        ensures
            match r {
                Some(v) => frame_lookup(self@[fi as int].entries, name@) == Some(v@),
                None => frame_lookup(self@[fi as int].entries, name@) is None,
            },
    {
        let n = self.frames[fi].entries.len();
        proof {
            assert(self@[fi as int].entries.subrange(0, self@[fi as int].entries.len() as int)
                =~= self@[fi as int].entries);
        }
        self.frame_get_rec(fi, n, name)
    }

    fn frame_get_rec(&self, fi: usize, upto: usize, name: &String) -> (r: Option<Value>)
        requires
            self.wf(),
            fi < self@.len(),
            upto <= self@[fi as int].entries.len(),
        ensures
            match r {
                Some(v) => frame_lookup(self@[fi as int].entries.subrange(0, upto as int), name@)
                    == Some(v@),
                None => frame_lookup(self@[fi as int].entries.subrange(0, upto as int), name@)
                    is None,
            },
        decreases upto,
    {
        let ghost pfx = self@[fi as int].entries.subrange(0, upto as int);
        if upto == 0 {
            None
        } else {
            proof {
                assert(pfx.last() == self@[fi as int].entries[upto - 1]);
                assert(pfx.drop_last() =~= self@[fi as int].entries.subrange(0, upto - 1));
                assert(self@[fi as int] == self.frames@[fi as int]@);
                assert(self@[fi as int].entries[upto - 1] == (
                    self.frames@[fi as int].entries@[upto - 1].0@,
                    self.frames@[fi as int].entries@[upto - 1].1@,
                ));
            }
            let e = &self.frames[fi].entries[upto - 1];
            if streq(&e.0, name) {
                Some(dup_value(&e.1))
            } else {
                proof {
                    last_match_props(pfx.drop_last(), name@);
                }
                self.frame_get_rec(fi, upto - 1, name)
            }
        }
    }

    /// The value `name` has from frame `fi` outward, as an equal copy; the
    /// outer frames are searched only on an inner miss.
    pub fn get(&self, fi: usize, name: &String) -> (r: Option<Value>)
        requires
            self.wf(),
            fi < self@.len(),
        ensures
            match r {
                Some(v) => env_lookup(self@, fi as int, name@) == Some(v@),
                None => env_lookup(self@, fi as int, name@) is None,
            },
        decreases fi,
    {
        match self.frame_get(fi, name) {
            Some(v) => Some(v),
            None => match self.frames[fi].parent {
                Some(p) => self.get(p, name),
                None => None,
            },
        }
    }

    /// The nesting distance from frame `fi` to the frame binding `name`.
    pub fn depth(&self, fi: usize, name: &String) -> (r: Option<usize>)
        requires
            self.wf(),
            fi < self@.len(),
        ensures
            match r {
                Some(d) => env_depth(self@, fi as int, name@) == Some(d as nat),
                None => env_depth(self@, fi as int, name@) is None,
            },
        decreases fi,
    {
        match self.frame_get(fi, name) {
            Some(_v) => Some(0),
            None => match self.frames[fi].parent {
                Some(p) => match self.depth(p, name) {
                    Some(d) => {
                        proof {
                            env_depth_bound(self@, p as int, name@);
                        }
                        Some(d + 1)
                    },
                    None => None,
                },
                None => None,
            },
        }
    }

    fn frame_index_of(&self, fi: usize, name: &String) -> (r: Option<usize>)
        requires
            self.wf(),
            fi < self@.len(),
        ensures
            match r {
                Some(i) => last_match(self@[fi as int].entries, name@) == Some(i as int),
                None => last_match(self@[fi as int].entries, name@) is None,
            },
    {
        let n = self.frames[fi].entries.len();
        proof {
            assert(self@[fi as int].entries.subrange(0, self@[fi as int].entries.len() as int)
                =~= self@[fi as int].entries);
        }
        self.frame_index_rec(fi, n, name)
    }

    fn frame_index_rec(&self, fi: usize, upto: usize, name: &String) -> (r: Option<usize>)
        requires
            self.wf(),
            fi < self@.len(),
            upto <= self@[fi as int].entries.len(),
        ensures
            match r {
                Some(i) => last_match(self@[fi as int].entries.subrange(0, upto as int), name@)
                    == Some(i as int),
                None => last_match(self@[fi as int].entries.subrange(0, upto as int), name@)
                    is None,
            },
        decreases upto,
    {
        let ghost pfx = self@[fi as int].entries.subrange(0, upto as int);
        if upto == 0 {
            None
        } else {
            proof {
                assert(pfx.last() == self@[fi as int].entries[upto - 1]);
                assert(pfx.drop_last() =~= self@[fi as int].entries.subrange(0, upto - 1));
                assert(self@[fi as int] == self.frames@[fi as int]@);
                assert(self@[fi as int].entries[upto - 1] == (
                    self.frames@[fi as int].entries@[upto - 1].0@,
                    self.frames@[fi as int].entries@[upto - 1].1@,
                ));
            }
            let e = &self.frames[fi].entries[upto - 1];
            if streq(&e.0, name) {
                Some(upto - 1)
            } else {
                self.frame_index_rec(fi, upto - 1, name)
            }
        }
    }

    /// Writes `v` over the nearest existing binding of `name`, searching from
    /// frame `fi` outward; reports whether any frame bound it.
    pub fn assign(&mut self, fi: usize, name: &String, v: Value) -> (r: bool)
        requires
            old(self).wf(),
            fi < old(self)@.len(),
        ensures
            final(self).wf(),
            final(self)@.len() == old(self)@.len(),
            if r {
                env_assign(old(self)@, fi as int, name@, v@) == Some(final(self)@)
            } else {
                env_assign(old(self)@, fi as int, name@, v@) is None && final(self)@ == old(
                    self,
                )@
            },
        decreases fi,
    {
        match self.frame_index_of(fi, name) {
            Some(i) => {
                let ghost pre = self@;
                let name_copy = name.clone();
                proof {
                    last_match_props(self@[fi as int].entries, name@);
                }
                self.frames[fi].entries.set(i, (name_copy, v));
                proof {
                    assert(self@ =~~= pre.update(
                        fi as int,
                        FrameS {
                            entries: pre[fi as int].entries.update(i as int, (name@, v@)),
                            parent: pre[fi as int].parent,
                        },
                    ));
                }
                true
            },
            None => {
                let parent = self.frames[fi].parent;
                match parent {
                    Some(p) => self.assign(p, name, v),
                    None => false,
                }
            },
        }
    }

    /// Binds `name` to `v` in frame `fi` itself, shadowing outer bindings.
    pub fn init(&mut self, fi: usize, name: String, v: Value) -> (r: ())
        requires
            old(self).wf(),
            fi < old(self)@.len(),
        ensures
            final(self).wf(),
            final(self)@ == env_define(old(self)@, fi as int, name@, v@),
            final(self)@.len() == old(self)@.len(),
    {
        let ghost pre = self@;
        self.frames[fi].entries.push((name, v));
        proof {
            assert(self@ =~~= env_define(pre, fi as int, name@, v@));
        }
    }

    /// The parent of frame `fi`, `None` for the global frame.
    pub fn parent(&self, fi: usize) -> (r: Option<usize>)
        requires
            self.wf(),
            fi < self@.len(),
        ensures
            match r {
                Some(p) => self@[fi as int].parent == Some(p as int) && p < fi,
                None => self@[fi as int].parent is None && fi == 0,
            },
    {
        self.frames[fi].parent
    }
}

} // verus!
