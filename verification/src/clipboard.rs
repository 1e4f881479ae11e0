//! The ways to the clipboard and to the primary selection, in the order in
//! which they are tried.

use vstd::prelude::*;

verus! {

/// A way to read or write text that other programs share.
#[derive(Copy, Clone, Debug, PartialEq, Eq, Structural)]
pub enum Way {
    /// Asking the compositor directly. This only reads.
    Compositor,
    /// The `wl-copy` and `wl-paste` programs.
    Program,
    /// The clipboard of the desktop. It has no primary selection.
    Desktop,
}

/// What there is on this machine.
#[derive(Copy, Clone, Debug, PartialEq, Eq, Structural)]
pub struct Ways {
    /// There is a Wayland compositor.
    pub compositor: bool,
    /// The programs are installed.
    pub programs: bool,
    /// There is a clipboard of the desktop.
    pub desktop: bool,
}

impl Ways {
    /// The programs work: they need a compositor to talk to.
    pub open spec fn program(self) -> bool {
        self.compositor && self.programs
    }

    /// Whether a way can be used to read or to write, from the primary
    /// selection or from the clipboard.
    pub open spec fn has(self, way: Way, writing: bool, primary: bool) -> bool {
        match way {
            Way::Compositor => self.compositor && !writing,
            Way::Program => self.program(),
            Way::Desktop => self.desktop && !primary,
        }
    }

    /// The ways that can be used, in the order in which they are tried.
    pub open spec fn order(self, writing: bool, primary: bool) -> Seq<Way> {
        seq![Way::Compositor, Way::Program, Way::Desktop].filter(
            |way: Way| self.has(way, writing, primary),
        )
    }

    /// The ways that can be used, in the order in which they are tried.
    pub fn tried(&self, writing: bool, primary: bool) -> (ways: Vec<Way>)
        ensures
            ways@ == self.order(writing, primary),
    {
        let mut ways: Vec<Way> = Vec::new();
        if self.compositor && !writing {
            ways.push(Way::Compositor);
        }
        if self.compositor && self.programs {
            ways.push(Way::Program);
        }
        if self.desktop && !primary {
            ways.push(Way::Desktop);
        }
        proof {
            lemma_order(*self, writing, primary);
        }
        ways
    }

    /// Whether nothing can be copied at all.
    pub fn are_missing(&self) -> (missing: bool)
        ensures
            missing == (self.order(true, false).len() == 0),
    {
        proof {
            lemma_order(*self, true, false);
        }
        !(self.compositor && self.programs) && !self.desktop
    }
}

/// A list of one way, or of none.
spec fn one_if(there: bool, way: Way) -> Seq<Way> {
    if there {
        seq![way]
    } else {
        Seq::empty()
    }
}

proof fn lemma_order(w: Ways, writing: bool, primary: bool)
    ensures
        w.order(writing, primary) == one_if(
            w.has(Way::Compositor, writing, primary),
            Way::Compositor,
        ) + one_if(w.has(Way::Program, writing, primary), Way::Program) + one_if(
            w.has(Way::Desktop, writing, primary),
            Way::Desktop,
        ),
{
    reveal(Seq::filter);
    let all = seq![Way::Compositor, Way::Program, Way::Desktop];
    let keep = |way: Way| w.has(way, writing, primary);
    assert(all.drop_last().drop_last().drop_last() =~= Seq::<Way>::empty());
    assert(all.drop_last().drop_last().drop_last().filter(keep) =~= Seq::<Way>::empty());
    assert(all.drop_last().drop_last().filter(keep) =~= one_if(
        keep(Way::Compositor),
        Way::Compositor,
    ));
    assert(all.drop_last().filter(keep) =~= one_if(keep(Way::Compositor), Way::Compositor)
        + one_if(keep(Way::Program), Way::Program));
    assert(all.filter(keep) =~= one_if(keep(Way::Compositor), Way::Compositor) + one_if(
        keep(Way::Program),
        Way::Program,
    ) + one_if(keep(Way::Desktop), Way::Desktop));
}

/// What can be written can be read back by the same way, and no way is tried
/// twice.
pub proof fn law_writers_can_read(w: Ways, primary: bool, way: Way)
    ensures
        w.order(true, primary).contains(way) ==> w.order(false, primary).contains(way),
        w.order(false, primary).no_duplicates(),
        w.order(true, primary).no_duplicates(),
{
    lemma_order(w, true, primary);
    lemma_order(w, false, primary);
    let read = w.order(false, primary);
    let write = w.order(true, primary);
    if write.contains(way) {
        let skip = one_if(w.has(Way::Compositor, false, primary), Way::Compositor);
        let i = write.index_of(way);
        assert(read =~= skip + write);
        assert(read[skip.len() + i] == way);
    }
}

} // verus!
