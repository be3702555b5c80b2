use vstd::prelude::*;

use crate::built_in_functions::{built_in_function_bindings, builtin_bindings};
use crate::lisp_error::LispError;
use crate::semantics::{
    assign, bind_all, binding_index, define, lookup, put_binding, remove, store_wf, FrameView,
    Store,
};
use crate::value::{copy_output, LispOutput, Val};

verus! {

/// One scope: names bound to values, and the index of the enclosing frame.
#[derive(Debug, PartialEq)]
pub struct Frame {
    pub bindings: Vec<(String, LispOutput)>,
    pub parent: Option<usize>,
}

pub open spec fn bindings_view(bs: Seq<(String, LispOutput)>) -> Seq<(Seq<char>, Val)> {
    bs.map_values(|b: (String, LispOutput)| (b.0@, b.1@))
}

impl View for Frame {
    type V = FrameView;

    open spec fn view(&self) -> FrameView {
        FrameView {
            bindings: bindings_view(self.bindings@),
            parent: match self.parent {
                Some(p) => Some(p as nat),
                None => None,
            },
        }
    }
}

/// All frames of a program, indexed from zero, and the frame that top-level forms are
/// evaluated in. Closures refer to frames by index, so a closure stored in the frame it
/// captured makes no ownership cycle. Frames are never taken out: the frames of calls and
/// `let` forms are reclaimed when the environment itself is dropped.
#[derive(Debug, PartialEq)]
pub struct Environment {
    pub frames: Vec<Frame>,
    pub current: usize,
}

/// Model of an environment.
pub struct EnvView {
    pub frames: Store,
    pub current: nat,
}

pub open spec fn frames_view(frs: Seq<Frame>) -> Store {
    frs.map_values(|fr: Frame| fr@)
}

impl View for Environment {
    type V = EnvView;

    open spec fn view(&self) -> EnvView {
        EnvView { frames: frames_view(self.frames@), current: self.current as nat }
    }
}

/// Finds the binding of `name` in `bs`.
fn find_binding(bs: &Vec<(String, LispOutput)>, name: &String) -> (r: Option<usize>)
    ensures
        match r {
            Some(i) => i == binding_index(bindings_view(bs@), name@) && i < bs.len(),
            None => binding_index(bindings_view(bs@), name@) == -1,
        },
{
    let ghost bv = bindings_view(bs@);
    let mut i: usize = bs.len();
    assert(bv.take(i as int) =~= bv);
    while i > 0
        invariant
            i <= bs.len(),
            bv == bindings_view(bs@),
            binding_index(bv, name@) == binding_index(bv.take(i as int), name@),
        decreases i,
    {
        assert(bv.take(i as int).drop_last() =~= bv.take(i - 1));
        if bs[i - 1].0 == *name {
            return Some(i - 1);
        }
        i = i - 1;
    }
    None
}

pub proof fn lemma_binding_index_range(bs: Seq<(Seq<char>, Val)>, name: Seq<char>)
    ensures
        -1 <= binding_index(bs, name) < bs.len(),
        binding_index(bs, name) >= 0 ==> bs[binding_index(bs, name)].0 == name,
    decreases bs.len(),
{
    if bs.len() > 0 {
        lemma_binding_index_range(bs.drop_last(), name);
    }
}

impl Environment {
    /// Frames are well formed: the current frame exists, and each frame's parent comes
    /// before it.
    pub open spec fn wf(&self) -> bool {
        &&& self.current < self.frames.len()
        &&& store_wf(self@.frames)
    }

    /// An environment of one empty frame.
    pub fn new() -> (r: Self)
        ensures
            r.wf(),
            r@.current == 0,
            r@.frames == seq![FrameView { bindings: seq![], parent: None }],
    {
        let mut frames: Vec<Frame> = Vec::new();
        frames.push(Frame { bindings: Vec::new(), parent: None });
        let r = Environment { frames, current: 0 };
        assert(bindings_view(r.frames@[0].bindings@) =~= seq![]);
        assert(r@.frames =~= seq![FrameView { bindings: seq![], parent: None }]);
        r
    }

    /// An environment of the built-ins frame alone.
    pub fn built_ins_env() -> (r: Self)
        ensures
            r.wf(),
            r@.current == 0,
            r@.frames == seq![FrameView { bindings: builtin_bindings(), parent: None }],
    {
        let mut frames: Vec<Frame> = Vec::new();
        frames.push(Frame { bindings: built_in_function_bindings(), parent: None });
        let r = Environment { frames, current: 0 };
        assert(r@.frames =~= seq![FrameView { bindings: builtin_bindings(), parent: None }]);
        r
    }

    /// The environment a program starts in: an empty global frame, child of the built-ins
    /// frame, so that definitions never touch the built-ins frame itself.
    pub fn global_env() -> (r: Self)
        ensures
            r.wf(),
            r@.current == 1,
            r@.frames == seq![
                FrameView { bindings: builtin_bindings(), parent: None },
                FrameView { bindings: seq![], parent: Some(0) },
            ],
    {
        let mut frames: Vec<Frame> = Vec::new();
        frames.push(Frame { bindings: built_in_function_bindings(), parent: None });
        frames.push(Frame { bindings: Vec::new(), parent: Some(0) });
        let r = Environment { frames, current: 1 };
        assert(bindings_view(r.frames@[1].bindings@) =~= seq![]);
        assert(r@.frames =~= seq![
            FrameView { bindings: builtin_bindings(), parent: None },
            FrameView { bindings: seq![], parent: Some(0) },
        ]);
        r
    }

    /// An environment whose current frame holds `bindings` (a later binding of a name
    /// overrides an earlier one) and whose parent, if given, is the current frame of
    /// `parent_env`, whose frames it keeps.
    pub fn build(bindings: Vec<(String, LispOutput)>, parent_env: Option<Environment>) -> (r: Self)
        requires
            parent_env matches Some(p) ==> p.wf(),
        ensures
            r.wf(),
            match parent_env {
                Some(p) => r@.frames == p@.frames.push(
                    FrameView {
                        bindings: bind_all(
                            bindings_view(bindings@).map_values(|b: (Seq<char>, Val)| b.0),
                            bindings_view(bindings@).map_values(|b: (Seq<char>, Val)| b.1),
                        ),
                        parent: Some(p@.current),
                    },
                ) && r@.current == p@.frames.len(),
                None => r@.frames == seq![
                    FrameView {
                        bindings: bind_all(
                            bindings_view(bindings@).map_values(|b: (Seq<char>, Val)| b.0),
                            bindings_view(bindings@).map_values(|b: (Seq<char>, Val)| b.1),
                        ),
                        parent: None,
                    },
                ] && r@.current == 0,
            },
    {
        let bs = collect_bindings(bindings);
        match parent_env {
            Some(p) => {
                let mut frames = p.frames;
                let parent = p.current;
                let ghost old_frames = frames@;
                frames.push(Frame { bindings: bs, parent: Some(parent) });
                let current = frames.len() - 1;
                let r = Environment { frames, current };
                assert(frames_view(r.frames@) =~= frames_view(old_frames).push(r.frames@.last()@));
                r
            },
            None => {
                let mut frames: Vec<Frame> = Vec::new();
                frames.push(Frame { bindings: bs, parent: None });
                let r = Environment { frames, current: 0 };
                assert(frames_view(r.frames@) =~= seq![r.frames@[0]@]);
                r
            },
        }
    }
}

impl Environment {
    /// The value of `name` seen from frame `f`, looked up the chain of parents.
    pub fn lookup_in(&self, f: usize, name: &String) -> (r: Option<LispOutput>)
        requires
            self.wf(),
            f < self.frames.len(),
        ensures
            match r {
                Some(v) => lookup(self@.frames, f as nat, name@) == Some(v@),
                None => lookup(self@.frames, f as nat, name@) is None,
            },
    {
        let ghost st = self@.frames;
        let mut cur: usize = f;
        loop
            invariant
                self.wf(),
                st == self@.frames,
                cur < self.frames.len(),
                lookup(st, cur as nat, name@) == lookup(st, f as nat, name@),
            decreases cur,
        {
            assert(st[cur as int] == self.frames@[cur as int]@);
            match find_binding(&self.frames[cur].bindings, name) {
                Some(i) => {
                    return Some(copy_output(&self.frames[cur].bindings[i].1));
                },
                None => {
                    match self.frames[cur].parent {
                        Some(p) => {
                            assert(st[cur as int].parent == Some(p as nat));
                            cur = p;
                        },
                        None => {
                            return None;
                        },
                    }
                },
            }
        }
    }

    /// Binds `name` to `v` in frame `f` itself.
    pub fn define_in(&mut self, f: usize, name: &String, v: LispOutput)
        requires
            old(self).wf(),
            f < old(self).frames.len(),
        ensures
            final(self).wf(),
            final(self).current == old(self).current,
            final(self).frames.len() == old(self).frames.len(),
            final(self)@.frames == define(old(self)@.frames, f as nat, name@, v@),
    {
        let ghost st = self@.frames;
        let ghost vv = v@;
        assert(st[f as int] == self.frames@[f as int]@);
        put_entry(&mut self.frames[f].bindings, name.clone(), v);
        assert(self@.frames =~= define(st, f as nat, name@, vv));
    }

    /// Overwrites the binding of `name` in the first frame of the chain from `f` that has
    /// one; fails when none has.
    pub fn assign_in(&mut self, f: usize, name: &String, v: LispOutput) -> (r: Result<(), LispError>)
        requires
            old(self).wf(),
            f < old(self).frames.len(),
        ensures
            final(self).wf(),
            final(self).current == old(self).current,
            final(self).frames.len() == old(self).frames.len(),
            match assign(old(self)@.frames, f as nat, name@, v@) {
                Some(st) => r is Ok && final(self)@.frames == st,
                None => r == Err::<(), LispError>(LispError::UnboundSymbol) && final(self)@ == old(self)@,
            },
    {
        let ghost st = self@.frames;
        let ghost vv = v@;
        let mut cur: usize = f;
        loop
            invariant
                self.wf(),
                st == self@.frames,
                *self == *old(self),
                vv == v@,
                cur < self.frames.len(),
                assign(st, cur as nat, name@, vv) == assign(st, f as nat, name@, vv),
            decreases cur,
        {
            assert(st[cur as int] == self.frames@[cur as int]@);
            match find_binding(&self.frames[cur].bindings, name) {
                Some(i) => {
                    proof {
                        lemma_binding_index_range(st[cur as int].bindings, name@);
                    }
                    let ghost old_frames = self.frames@;
                    set_entry(&mut self.frames[cur].bindings, i, v);
                    assert(self.frames@ == old_frames.update(cur as int, self.frames@[cur as int]));
                    assert(st[cur as int].bindings[i as int].0 == name@);
                    assert(self.frames@[cur as int]@ == FrameView { bindings: st[cur as int].bindings.update(i as int, (name@, vv)), parent: st[cur as int].parent });
                    assert(self@.frames =~= assign(st, cur as nat, name@, vv)->0);
                    return Ok(());
                },
                None => {
                    match self.frames[cur].parent {
                        Some(p) => {
                            assert(st[cur as int].parent == Some(p as nat));
                            cur = p;
                        },
                        None => {
                            assert(assign(st, cur as nat, name@, vv) is None);
                            return Err(LispError::UnboundSymbol);
                        },
                    }
                },
            }
        }
    }

    /// Takes the binding of `name` out of frame `f` itself; fails when `f` does not bind it.
    pub fn remove_in(&mut self, f: usize, name: &String) -> (r: Result<LispOutput, LispError>)
        requires
            old(self).wf(),
            f < old(self).frames.len(),
        ensures
            final(self).wf(),
            final(self).current == old(self).current,
            final(self).frames.len() == old(self).frames.len(),
            match remove(old(self)@.frames, f as nat, name@) {
                Some((st, v)) => r is Ok && r->Ok_0@ == v && final(self)@.frames == st,
                None => r == Err::<LispOutput, LispError>(LispError::UnboundSymbol) && final(self)@ == old(self)@,
            },
    {
        let ghost st = self@.frames;
        assert(st[f as int] == self.frames@[f as int]@);
        match find_binding(&self.frames[f].bindings, name) {
            Some(i) => {
                let entry = self.frames[f].bindings.remove(i);
                assert(bindings_view(self.frames@[f as int].bindings@) =~= st[f as int].bindings.remove(i as int));
                let ghost (st_after, _) = remove(st, f as nat, name@)->0;
                assert(self@.frames =~= st_after);
                Ok(entry.1)
            },
            None => Err(LispError::UnboundSymbol),
        }
    }

    /// Adds a frame holding `bindings` whose parent is frame `parent`; gives its index.
    pub fn push_frame(&mut self, bindings: Vec<(String, LispOutput)>, parent: usize) -> (r: usize)
        requires
            old(self).wf(),
            parent < old(self).frames.len(),
        ensures
            final(self).wf(),
            final(self).current == old(self).current,
            r == old(self).frames.len(),
            final(self).frames.len() == old(self).frames.len() + 1,
            final(self)@.frames == old(self)@.frames.push(
                FrameView { bindings: bindings_view(bindings@), parent: Some(parent as nat) },
            ),
    {
        let ghost st = self@.frames;
        let r = self.frames.len();
        self.frames.push(Frame { bindings, parent: Some(parent) });
        assert(self@.frames =~= st.push(
            FrameView { bindings: bindings_view(bindings@), parent: Some(parent as nat) },
        ));
        r
    }

    /// The value of `name` seen from the current frame.
    pub fn get(&self, var: &String) -> (r: Result<LispOutput, LispError>)
        requires
            self.wf(),
        ensures
            match lookup(self@.frames, self@.current, var@) {
                Some(v) => r is Ok && r->Ok_0@ == v,
                None => r == Err::<LispOutput, LispError>(LispError::UnboundSymbol),
            },
    {
        match self.lookup_in(self.current, var) {
            Some(v) => Ok(v),
            None => Err(LispError::UnboundSymbol),
        }
    }

    /// Binds `var` to a copy of `val` in the current frame.
    pub fn set(&mut self, var: &String, val: &LispOutput)
        requires
            old(self).wf(),
        ensures
            final(self).wf(),
            final(self)@.current == old(self)@.current,
            final(self)@.frames == define(old(self)@.frames, old(self)@.current, var@, val@),
    {
        let v = copy_output(val);
        let f = self.current;
        self.define_in(f, var, v);
    }

    /// Takes the binding of `var` out of the current frame, giving its value.
    pub fn del(&mut self, var: &String) -> (r: Result<LispOutput, LispError>)
        requires
            old(self).wf(),
        ensures
            final(self).wf(),
            final(self)@.current == old(self)@.current,
            match remove(old(self)@.frames, old(self)@.current, var@) {
                Some((st, v)) => r is Ok && r->Ok_0@ == v && final(self)@.frames == st,
                None => r == Err::<LispOutput, LispError>(LispError::UnboundSymbol) && final(self)@ == old(self)@,
            },
    {
        let f = self.current;
        self.remove_in(f, var)
    }

    /// Overwrites the nearest binding of `var` seen from the current frame; gives the value.
    pub fn set_bang(&mut self, var: &String, val: LispOutput) -> (r: Result<LispOutput, LispError>)
        requires
            old(self).wf(),
        ensures
            final(self).wf(),
            final(self)@.current == old(self)@.current,
            match assign(old(self)@.frames, old(self)@.current, var@, val@) {
                Some(st) => r is Ok && r->Ok_0@ == val@ && final(self)@.frames == st,
                None => r == Err::<LispOutput, LispError>(LispError::UnboundSymbol) && final(self)@ == old(self)@,
            },
    {
        let f = self.current;
        let stored = copy_output(&val);
        match self.assign_in(f, var, stored) {
            Ok(()) => Ok(val),
            Err(e) => Err(e),
        }
    }
}

/// The bindings of a fresh frame from `(name, value)` pairs; a later pair for a name
/// overrides an earlier one.
pub(crate) fn collect_bindings(bindings: Vec<(String, LispOutput)>) -> (r: Vec<(String, LispOutput)>)
    ensures
        bindings_view(r@) == bind_all(
            bindings_view(bindings@).map_values(|b: (Seq<char>, Val)| b.0),
            bindings_view(bindings@).map_values(|b: (Seq<char>, Val)| b.1),
        ),
{
    let ghost bv = bindings_view(bindings@);
    let ghost names = bv.map_values(|b: (Seq<char>, Val)| b.0);
    let ghost vals = bv.map_values(|b: (Seq<char>, Val)| b.1);
    let mut input = bindings;
    let mut out: Vec<(String, LispOutput)> = Vec::new();
    let mut i: usize = 0;
    assert(bindings_view(out@) =~= bind_all(names.take(0), vals.take(0)));
    while i < input.len()
        invariant
            i <= input.len(),
            input.len() == bv.len(),
            names.len() == bv.len(),
            vals.len() == bv.len(),
            forall|j: int| i <= j < input.len() ==> (#[trigger] input@[j]).0@ == names[j],
            forall|j: int| i <= j < input.len() ==> (#[trigger] input@[j]).1@ == vals[j],
            bindings_view(out@) == bind_all(names.take(i as int), vals.take(i as int)),
        decreases input.len() - i,
    {
        let mut entry = (String::new(), LispOutput::Void);
        std::mem::swap(&mut input[i], &mut entry);
        assert(names.take(i + 1).drop_last() =~= names.take(i as int));
        assert(vals.take(i + 1).drop_last() =~= vals.take(i as int));
        put_entry(&mut out, entry.0, entry.1);
        i = i + 1;
    }
    assert(names.take(i as int) =~= names);
    assert(vals.take(i as int) =~= vals);
    out
}

/// Overwrites the value of binding `i`.
fn set_entry(bs: &mut Vec<(String, LispOutput)>, i: usize, v: LispOutput)
    requires
        i < old(bs).len(),
    ensures
        bindings_view(final(bs)@) == bindings_view(old(bs)@).update(
            i as int,
            (old(bs)@[i as int].0@, v@),
        ),
{
    let ghost v_view = v@;
    bs[i].1 = v;
    assert(bindings_view(bs@) =~= bindings_view(old(bs)@).update(
        i as int,
        (old(bs)@[i as int].0@, v_view),
    ));
}

/// Binds `name` to `v` in `bs`: overwrites the binding of `name`, or adds one.
fn put_entry(bs: &mut Vec<(String, LispOutput)>, name: String, v: LispOutput)
    ensures
        bindings_view(final(bs)@) == put_binding(bindings_view(old(bs)@), name@, v@),
{
    let ghost name_view = name@;
    let ghost v_view = v@;
    match find_binding(bs, &name) {
        Some(i) => {
            proof {
                lemma_binding_index_range(bindings_view(bs@), name@);
            }
            bs[i].1 = v;
            assert(bindings_view(bs@) =~= bindings_view(old(bs)@).update(
                i as int,
                (name_view, v_view),
            ));
        },
        None => {
            bs.push((name, v));
            assert(bindings_view(bs@) =~= bindings_view(old(bs)@).push((name_view, v_view)));
        },
    }
}

} // verus!
