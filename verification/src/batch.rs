//! Batching of draw commands: consecutive commands that the renderer can
//! draw with one pipeline state are kept together in one packed group.
use vstd::prelude::*;

verus! {

broadcast use vstd::seq_lib::group_seq_properties;

/// What the batching reads of a draw command: its kind, and for text the
/// name of the font it is set in.
pub enum DrawKind {
    Rect,
    Texture,
    Text(Option<String>),
}

/// The model of a draw command's kind.
pub enum DrawKindView {
    Rect,
    Texture,
    Text(Option<Seq<char>>),
}

impl View for DrawKind {
    type V = DrawKindView;

    open spec fn view(&self) -> DrawKindView {
        match self {
            DrawKind::Rect => DrawKindView::Rect,
            DrawKind::Texture => DrawKindView::Texture,
            DrawKind::Text(None) => DrawKindView::Text(None),
            DrawKind::Text(Some(name)) => DrawKindView::Text(Some(name@)),
        }
    }
}

impl DrawKind {
    /// Two commands go into one batch when they are both rectangles, both
    /// textures, or both text set in fonts of the same name.
    pub fn same_batch(&self, other: &DrawKind) -> (r: bool)
        ensures
            r == (self@ == other@),
    {
        match (self, other) {
            (DrawKind::Rect, DrawKind::Rect) => true,
            (DrawKind::Texture, DrawKind::Texture) => true,
            (DrawKind::Text(a), DrawKind::Text(b)) => match (a, b) {
                (Some(x), Some(y)) => x.eq(y),
                (None, None) => true,
                _ => false,
            },
            _ => false,
        }
    }
}

/// A draw command together with its kind.
pub struct Batched<C> {
    pub kind: DrawKind,
    pub command: C,
}

/// All items of `s` are of one kind.
pub open spec fn homogeneous<C>(s: Seq<Batched<C>>) -> bool {
    forall|i: int, j: int| 0 <= i < s.len() && 0 <= j < s.len() ==> #[trigger] s[i].kind@ == #[trigger] s[j].kind@
}

/// The packed groups and the active group that pushing the commands of `s`,
/// one by one, into an empty buffer leaves: a command starts a new group
/// exactly when the active group is not empty and its last command is of
/// another kind.
pub open spec fn batch_of<C>(s: Seq<Batched<C>>) -> (Seq<Seq<Batched<C>>>, Seq<Batched<C>>)
    decreases s.len(),
{
    if s.len() == 0 {
        (Seq::empty(), Seq::empty())
    } else {
        let prev = batch_of(s.drop_last());
        let x = s.last();
        if prev.1.len() > 0 && prev.1.last().kind@ != x.kind@ {
            (prev.0.push(prev.1), seq![x])
        } else {
            (prev.0, prev.1.push(x))
        }
    }
}

/// The shape of a batching: no packed group is empty, each group (packed
/// or active) holds commands of one kind, the last command of each packed
/// group is of another kind than the first of the group after it (the
/// active group after the last packed one), and the active group is empty
/// only while nothing was packed.
pub open spec fn well_batched<C>(groups: Seq<Seq<Batched<C>>>, active: Seq<Batched<C>>) -> bool {
    &&& forall|i: int| 0 <= i < groups.len() ==> (#[trigger] groups[i]).len() > 0
    &&& forall|i: int| 0 <= i < groups.len() ==> homogeneous(#[trigger] groups[i])
    &&& homogeneous(active)
    &&& forall|i: int, j: int|
        0 <= i && j == i + 1 && j < groups.len() ==> (#[trigger] groups[i]).last().kind@
            != (#[trigger] groups[j]).first().kind@
    &&& (groups.len() > 0 && active.len() > 0) ==> groups.last().last().kind@
        != active.first().kind@
    &&& active.len() == 0 ==> groups.len() == 0
}

/// Pushing a sequence of commands into an empty buffer loses none and keeps
/// their order (the packed groups, then the active group, give the sequence
/// back), and leaves them well batched: packed groups are never empty, every
/// group holds one kind, and neighbouring groups differ in kind where they
/// meet.
pub proof fn law_batching<C>(s: Seq<Batched<C>>)
    ensures
        batch_of(s).0.flatten() + batch_of(s).1 == s,
        well_batched(batch_of(s).0, batch_of(s).1),
    decreases s.len(),
{
    if s.len() == 0 {
        assert(batch_of(s).0.flatten() =~= Seq::<Batched<C>>::empty());
        assert(batch_of(s).0.flatten() + batch_of(s).1 =~= s);
    } else {
        let rest = s.drop_last();
        law_batching(rest);
        let g = batch_of(rest).0;
        let a = batch_of(rest).1;
        let x = s.last();
        assert(s == rest.push(x));
        if a.len() > 0 && a.last().kind@ != x.kind@ {
            let ng = g.push(a);
            let na = seq![x];
            g.lemma_flatten_push(a);
            assert(ng.flatten() + na =~= s);
            assert forall|i: int| 0 <= i < ng.len() implies (#[trigger] ng[i]).len() > 0 by {
                if i < g.len() {
                    assert(ng[i] == g[i]);
                }
            }
            assert forall|i: int| 0 <= i < ng.len() implies homogeneous(#[trigger] ng[i]) by {
                if i < g.len() {
                    assert(ng[i] == g[i]);
                }
            }
            assert forall|i: int, j: int|
                0 <= i && j == i + 1 && j < ng.len() implies (#[trigger] ng[i]).last().kind@
                != (#[trigger] ng[j]).first().kind@ by {
                if j < g.len() {
                    assert(ng[i] == g[i] && ng[j] == g[j]);
                } else {
                    assert(ng[i] == g.last() && ng[j] == a);
                }
            }
            assert(well_batched(ng, na));
        } else {
            let na = a.push(x);
            assert(g.flatten() + na =~= (g.flatten() + a).push(x));
            assert(homogeneous(na)) by {
                assert forall|i: int, j: int|
                    0 <= i < na.len() && 0 <= j < na.len() implies #[trigger] na[i].kind@
                    == #[trigger] na[j].kind@ by {
                    if a.len() > 0 {
                        if i < a.len() {
                            assert(a[i].kind@ == a.last().kind@);
                        }
                        if j < a.len() {
                            assert(a[j].kind@ == a.last().kind@);
                        }
                    }
                }
            }
            if a.len() > 0 {
                assert(na.first() == a.first());
            }
            assert(well_batched(g, na));
        }
    }
}

/// Commands that are drawn together.
pub struct PackedGroup<C> {
    inner: Vec<Batched<C>>,
}

impl<C> PackedGroup<C> {
    pub closed spec fn items(&self) -> Seq<Batched<C>> {
        self.inner@
    }

    /// The commands of the group, in the order they were pushed.
    pub fn commands(&self) -> (r: &Vec<Batched<C>>)
        ensures
            r@ == self.items(),
    {
        &self.inner
    }
}

/// The draw commands of one frame: packed groups, then the group that is
/// still being filled.
pub struct CommandBuffer<C> {
    packed: Vec<PackedGroup<C>>,
    active: Vec<Batched<C>>,
}

impl<C> CommandBuffer<C> {
    /// The packed groups, each as its sequence of commands.
    pub closed spec fn groups(&self) -> Seq<Seq<Batched<C>>> {
        self.packed@.map_values(|g: PackedGroup<C>| g.inner@)
    }

    pub closed spec fn active_items(&self) -> Seq<Batched<C>> {
        self.active@
    }

    /// Every command pushed so far, in order.
    pub closed spec fn entries(&self) -> Seq<Batched<C>> {
        self.groups().flatten() + self.active@
    }

    /// The groups are those that pushing the entries one by one into an
    /// empty buffer makes.
    pub open spec fn follows_pushes(&self) -> bool {
        &&& self.groups() == batch_of(self.entries()).0
        &&& self.active_items() == batch_of(self.entries()).1
    }

    /// Every group, packed or active, holds commands of one kind.
    pub closed spec fn wf(&self) -> bool {
        &&& forall|i: int| 0 <= i < self.groups().len() ==> homogeneous(#[trigger] self.groups()[i])
        &&& homogeneous(self.active@)
    }

    /// An empty buffer.
    pub fn new() -> (r: CommandBuffer<C>)
        ensures
            r.wf(),
            r.follows_pushes(),
            r.groups() == Seq::<Seq<Batched<C>>>::empty(),
            r.active_items() == Seq::<Batched<C>>::empty(),
    {
        let r = CommandBuffer { packed: Vec::new(), active: Vec::new() };
        assert(r.groups() =~= Seq::<Seq<Batched<C>>>::empty());
        assert(r.entries() =~= Seq::<Batched<C>>::empty());
        r
    }

    /// Closes the active group: it becomes the last packed group, and a new,
    /// empty group is started.
    pub fn pack_active_group(&mut self)
        requires
            old(self).wf(),
        ensures
            final(self).wf(),
            final(self).groups() == old(self).groups().push(old(self).active_items()),
            final(self).active_items() == Seq::<Batched<C>>::empty(),
            final(self).entries() == old(self).entries(),
    {
        let mut group: Vec<Batched<C>> = Vec::new();
        std::mem::swap(&mut group, &mut self.active);
        let ghost old_groups = self.groups();
        self.packed.push(PackedGroup { inner: group });
        proof {
            assert(self.groups() =~= old_groups.push(group@));
            old_groups.lemma_flatten_push(group@);
            assert(self.entries() =~= old(self).entries());
        }
    }

    /// Adds a command. When it cannot be drawn together with the commands of
    /// the active group, that group is packed first.
    pub fn push(&mut self, kind: DrawKind, command: C)
        requires
            old(self).wf(),
        ensures
            final(self).wf(),
            final(self).entries() == old(self).entries().push(Batched { kind, command }),
            old(self).follows_pushes() ==> final(self).follows_pushes(),
            (old(self).active_items().len() > 0 && old(self).active_items().last().kind@ != kind@)
                ==> final(self).groups() == old(self).groups().push(old(self).active_items())
                && final(self).active_items() == seq![Batched { kind, command }],
            !(old(self).active_items().len() > 0 && old(self).active_items().last().kind@ != kind@)
                ==> final(self).groups() == old(self).groups()
                && final(self).active_items() == old(self).active_items().push(Batched { kind, command }),
    {
        let len = self.active.len();
        if len > 0 && !self.active[len - 1].kind.same_batch(&kind) {
            self.pack_active_group();
        }
        let ghost before = self.active@;
        let ghost groups = self.groups();
        self.active.push(Batched { kind, command });
        proof {
            assert(self.groups() == groups);
            assert(homogeneous(self.active@)) by {
                assert forall|i: int, j: int|
                    0 <= i < self.active@.len() && 0 <= j < self.active@.len() implies #[trigger] self.active@[i].kind@
                    == #[trigger] self.active@[j].kind@ by {
                    if before.len() > 0 {
                        assert(before.last().kind@ == kind@);
                        if i < before.len() {
                            assert(before[i].kind@ == before.last().kind@);
                        }
                        if j < before.len() {
                            assert(before[j].kind@ == before.last().kind@);
                        }
                    }
                }
            }
            assert(self.entries() =~= old(self).entries().push(Batched { kind, command }));
            assert(self.entries().drop_last() =~= old(self).entries());
        }
    }

    /// The packed groups, in order.
    pub fn packed_groups(&self) -> (r: &Vec<PackedGroup<C>>)
        ensures
            r@.map_values(|g: PackedGroup<C>| g.items()) == self.groups(),
    {
        &self.packed
    }
}

/// A buffer filled only by pushes from empty holds every command pushed, in
/// order, and is well batched.
pub proof fn law_pushed_buffer_is_well_batched<C>(cb: &CommandBuffer<C>)
    requires
        cb.follows_pushes(),
    ensures
        cb.groups().flatten() + cb.active_items() == cb.entries(),
        well_batched(cb.groups(), cb.active_items()),
{
    law_batching(cb.entries());
}

} // verus!
