//! Decisions at the start: which program to run, which theme to show, and
//! which kind of surface to draw on.

use vstd::prelude::*;

use crate::text;
use crate::theme_lib;
use crate::theme_lib::ThemeLib;

verus! {

/// The shell to run: what the environment names, else the one that every
/// system has.
pub fn default_shell(env: Option<&str>) -> (shell: String)
    ensures
        shell@ == (match env {
            Some(s) => s@,
            None => "/bin/sh"@,
        }),
{
    match env {
        Some(s) => s.to_owned(),
        None => "/bin/sh".to_owned(),
    }
}

/// The program to run with its arguments: the command, or the shell where none
/// is given.
pub fn choose_program(command: &[String], shell: Option<&str>) -> (program: (String, Vec<String>))
    ensures
        command@.len() == 0 ==> program.1@.len() == 0 && program.0@ == (match shell {
            Some(s) => s@,
            None => "/bin/sh"@,
        }),
        command@.len() > 0 ==> program.0@ == command@[0]@ && text::texts(program.1@) == text::texts(
            command@.skip(1),
        ),
{
    let mut args: Vec<String> = Vec::new();
    if command.len() == 0 {
        return (default_shell(shell), args);
    }
    let mut i: usize = 1;
    while i < command.len()
        invariant
            1 <= i <= command@.len(),
            args@.len() == i - 1,
            forall|k: int| 0 <= k < i - 1 ==> (#[trigger] args@[k])@ == command@[k + 1]@,
        decreases command@.len() - i,
    {
        args.push(command[i].as_str().to_owned());
        i += 1;
    }
    assert(text::texts(args@) =~= text::texts(command@.skip(1)));
    (command[0].as_str().to_owned(), args)
}

/// Which theme to begin with.
#[derive(Debug)]
pub enum ThemeChoice {
    /// The theme of this name.
    Theme(String),
    /// The theme of this name, because the one configured does not exist.
    Instead(String),
    /// The theme asked for does not exist.
    NotFound,
}

/// The name of the default theme: that of the theme found under its name, or
/// else of the first one.
pub open spec fn is_default_name(lib: ThemeLib, name: Seq<char>) -> bool {
    ||| theme_lib::finds(lib@, theme_lib::DEFAULT_THEME_NAME@, None) && name == lib@[0].name
    ||| exists|i: int|
        #[trigger] theme_lib::finds(lib@, theme_lib::DEFAULT_THEME_NAME@, Some(i)) && name
            == lib@[i].name
}

/// The name of the theme that a search finds.
pub open spec fn is_found_name(lib: ThemeLib, asked: Seq<char>, name: Seq<char>) -> bool {
    exists|i: int| #[trigger] theme_lib::finds(lib@, asked, Some(i)) && name == lib@[i].name
}

/// Chooses the theme to begin with: the one asked for, which has to exist; else
/// the one configured; else the default.
pub fn choose_theme(lib: &ThemeLib, asked: Option<&str>, configured: Option<&str>) -> (choice:
    ThemeChoice)
    requires
        lib@.len() > 0,
    ensures
        match (asked, configured) {
            (Some(n), _) => match choice {
                ThemeChoice::Theme(t) => is_found_name(*lib, n@, t@),
                ThemeChoice::NotFound => theme_lib::finds(lib@, n@, None),
                ThemeChoice::Instead(_) => false,
            },
            (None, Some(n)) => match choice {
                ThemeChoice::Theme(t) => is_found_name(*lib, n@, t@),
                ThemeChoice::Instead(t) => theme_lib::finds(lib@, n@, None) && is_default_name(
                    *lib,
                    t@,
                ),
                ThemeChoice::NotFound => false,
            },
            (None, None) => choice matches ThemeChoice::Theme(t) && is_default_name(*lib, t@),
        },
{
    match asked {
        Some(n) => match lib.find(n) {
            Some(t) => ThemeChoice::Theme(t.name.as_str().to_owned()),
            None => ThemeChoice::NotFound,
        },
        None => match configured {
            Some(n) => match lib.find(n) {
                Some(t) => ThemeChoice::Theme(t.name.as_str().to_owned()),
                None => ThemeChoice::Instead(lib.default().name.as_str().to_owned()),
            },
            None => ThemeChoice::Theme(lib.default().name.as_str().to_owned()),
        },
    }
}

/// The properties of a kind of surface that matter.
#[derive(Copy, Clone, Debug, PartialEq, Eq, Structural)]
pub struct SurfaceKind {
    pub samples: u8,
    pub alpha: u8,
    pub depth: u8,
    pub stencil: u8,
}

/// How far a kind of surface is from one without multisampling, transparency,
/// depth and stencil. Transparency counts most.
pub open spec fn penalty(k: SurfaceKind) -> int {
    k.samples + (if k.alpha == 0 {
        0int
    } else {
        100
    }) + (if k.depth == 0 {
        0int
    } else {
        1
    }) + (if k.stencil == 0 {
        0int
    } else {
        1
    })
}

/// How far a kind of surface is from the best one.
pub fn score(k: SurfaceKind) -> (s: u32)
    ensures
        s == penalty(k),
{
    let alpha: u32 = if k.alpha == 0 {
        0
    } else {
        100
    };
    let depth: u32 = if k.depth == 0 {
        0
    } else {
        1
    };
    let stencil: u32 = if k.stencil == 0 {
        0
    } else {
        1
    };
    k.samples as u32 + alpha + depth + stencil
}

/// The best kind of surface, the first of several equally good ones.
pub fn pick_surface(kinds: &[SurfaceKind]) -> (best: Option<usize>)
    ensures
        best is None <==> kinds@.len() == 0,
        best matches Some(b) ==> {
            &&& b < kinds@.len()
            &&& forall|i: int|
                0 <= i < kinds@.len() ==> penalty(kinds@[b as int]) <= penalty(
                    #[trigger] kinds@[i],
                )
            &&& forall|i: int|
                0 <= i < b ==> penalty(kinds@[b as int]) < penalty(#[trigger] kinds@[i])
        },
{
    if kinds.len() == 0 {
        return None;
    }
    let mut best: usize = 0;
    let mut i: usize = 1;
    while i < kinds.len()
        invariant
            1 <= i <= kinds@.len(),
            best < i,
            forall|k: int|
                0 <= k < i ==> penalty(kinds@[best as int]) <= penalty(#[trigger] kinds@[k]),
            forall|k: int|
                0 <= k < best ==> penalty(kinds@[best as int]) < penalty(#[trigger] kinds@[k]),
        decreases kinds@.len() - i,
    {
        if score(kinds[i]) < score(kinds[best]) {
            best = i;
        }
        i += 1;
    }
    Some(best)
}

/// A switch in the environment is on: it is `1` or `true`.
pub open spec fn switched_on(value: Seq<char>) -> bool {
    value == "1"@ || text::ascii_lowered(value) == "true"@
}

/// Whether a switch in the environment is on: it is `1` or `true`.
pub fn is_switched_on(value: Option<&str>) -> (on: bool)
    ensures
        on == (value matches Some(v) && switched_on(v@)),
        on == (value matches Some(v) && (v@ == "1"@ || text::ascii_lowered(v@) == "true"@)),
{
    match value {
        None => false,
        Some(v) => {
            let low = text::lower_ascii(text::chars_of(v).as_slice());
            text::str_is(v, "1") || text::chars_are(low.as_slice(), "true")
        },
    }
}

/// How many frames are timed at once.
pub const FRAME_SLOTS: usize = 4;

/// The slots of frames that are being timed. A slot is read when it is about
/// to be written again, which is not before every slot was written.
#[derive(Copy, Clone, Debug, PartialEq, Eq, Structural)]
pub struct TimingRing {
    pub next_slot: usize,
    pub primed: bool,
}

impl TimingRing {
    pub open spec fn wf(self) -> bool {
        self.next_slot < FRAME_SLOTS
    }

    /// The ring after a frame.
    pub open spec fn stepped(self) -> TimingRing {
        let next = (self.next_slot + 1) % FRAME_SLOTS as int;
        TimingRing { next_slot: next as usize, primed: self.primed || next == 0 }
    }

    /// The slot to read with the next frame, if there is one.
    pub open spec fn slot_read(self) -> Option<usize> {
        if self.primed {
            Some(self.stepped().next_slot)
        } else {
            None
        }
    }

    pub fn new() -> (r: TimingRing)
        ensures
            r.wf(),
            r == (TimingRing { next_slot: 0, primed: false }),
    {
        TimingRing { next_slot: 0, primed: false }
    }

    /// Goes on to the next frame and returns the slot to read, if it was
    /// written before.
    pub fn advance(&mut self) -> (slot: Option<usize>)
        requires
            old(self).wf(),
        ensures
            final(self).wf(),
            *final(self) == old(self).stepped(),
            slot == (if old(self).primed {
                Some(final(self).next_slot)
            } else {
                None
            }),
            slot == old(self).slot_read(),
    {
        self.next_slot = (self.next_slot + 1) % FRAME_SLOTS;
        if !self.primed {
            if self.next_slot == 0 {
                self.primed = true;
            }
            return None;
        }
        Some(self.next_slot)
    }
}

} // verus!
