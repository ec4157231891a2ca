//! The dashboard's state and its answer to each input event. The caller runs
//! the loop: it waits for an event, carries out the step that comes back, and
//! refreshes and redraws when told to.
use vstd::prelude::*;
use vstd::string::StringExecFns;
use crate::listview::{draw_images, list_ops, row_fits};
use crate::paint::{ops_view, Palette, PaintOp};
use crate::snapshot::{images_view, machines_view, snapshot, update_images, Image, Machine};

verus! {

/// Signal that asks a machine's leader to reboot (SIGINT).
pub const SIGNAL_REBOOT: i32 = 2;

/// Signal that asks a machine's leader to power off (SIGRTMIN+4).
pub const SIGNAL_POWEROFF: i32 = 38;

/// An input event, as far as the dashboard tells events apart.
#[derive(Clone, Copy, Debug, PartialEq, Eq, Structural)]
pub enum Event {
    Resize,
    Up,
    Down,
    /// The explicit refresh key.
    Refresh,
    Enter,
    /// The shell request.
    Right,
    Char(char),
    /// Any other event.
    Other,
}

/// A command for the host services.
#[derive(Debug, PartialEq, Eq)]
pub enum Command {
    /// Send `signal` to the processes `who` of the machine `name`.
    Kill { name: String, who: String, signal: i32 },
    /// Start the service unit `unit` in job mode `mode`.
    StartUnit { unit: String, mode: String },
}

/// How the loop goes on after a step.
#[derive(Debug, PartialEq, Eq)]
pub enum Exit {
    Continue,
    Quit,
    /// Leave, then attach a shell to the machine of this name.
    Shell(String),
    /// An event outside the recognized set ends the loop with an error.
    Invalid,
}

/// What the caller does after one event: issue the command, show the notice
/// for a moment, refresh the snapshot, repaint the list, or leave the loop.
#[derive(Debug)]
pub struct Step {
    pub command: Option<Command>,
    pub notice: Option<String>,
    pub refresh: bool,
    pub redraw: bool,
    pub exit: Exit,
}

/// The snapshot of images and the cursor into it.
#[derive(Debug)]
pub struct Dashboard {
    pub images: Vec<Image>,
    pub current: usize,
}

pub open spec fn unit_of(name: Seq<char>) -> Seq<char> {
    "systemd-nspawn@"@ + name + ".service"@
}

/// The cursor after the snapshot changed to `len` entries.
pub open spec fn clamped(current: nat, len: nat) -> nat {
    if len == 0 {
        0
    } else if current >= len {
        (len - 1) as nat
    } else {
        current
    }
}

pub open spec fn is_text(t: Option<String>, s: Seq<char>) -> bool {
    t matches Some(x) && x@ == s
}

pub open spec fn is_kill(c: Option<Command>, name: Seq<char>, signal: i32) -> bool {
    c matches Some(Command::Kill { name: n, who: w, signal: g }) && n@ == name && w@ == "leader"@ && g
        == signal
}

pub open spec fn is_start(c: Option<Command>, name: Seq<char>) -> bool {
    c matches Some(Command::StartUnit { unit: u, mode: m }) && u@ == unit_of(name) && m@ == "fail"@
}

/// A step that changes nothing and goes on.
pub open spec fn is_idle(s: Step) -> bool {
    s.command is None && s.notice is None && !s.refresh && !s.redraw && s.exit is Continue
}

impl Dashboard {
    /// The cursor is on an entry, or at 0 when there is none.
    pub open spec fn wf(&self) -> bool {
        if self.images@.len() == 0 {
            self.current == 0
        } else {
            self.current < self.images@.len()
        }
    }

    pub open spec fn running_at(&self, i: int) -> bool {
        self.images@[i].machine is Some
    }

    /// An empty dashboard.
    pub fn new() -> (r: Dashboard)
        ensures
            r.wf(),
            r.images@.len() == 0,
            r.current == 0,
    {
        Dashboard { images: Vec::new(), current: 0 }
    }

    /// Rebuilds the snapshot (see `update_images`) and keeps the cursor on an
    /// entry: it stays where it was unless the snapshot got shorter.
    pub fn refresh(&mut self, machines: Option<Vec<Machine>>, listing: Option<Vec<Image>>) -> (r: bool)
        ensures
            final(self).wf(),
            r == listing is Some,
            match listing {
                Some(l) => images_view(final(self).images@) == snapshot(
                    images_view(l@),
                    match machines {
                        Some(ms) => machines_view(ms@),
                        None => Seq::empty(),
                    },
                ),
                None => final(self).images@ == old(self).images@,
            },
            final(self).current == clamped(old(self).current as nat, final(self).images@.len()),
    {
        let r = update_images(&mut self.images, machines, listing);
        let len = self.images.len();
        if len == 0 {
            self.current = 0;
        } else if self.current >= len {
            self.current = len - 1;
        }
        r
    }

    /// The notice to show, and then fail with, when there is nothing to list.
    pub fn startup_notice(&self) -> (r: Option<String>)
        ensures
            r is Some <==> self.images@.len() == 0,
            r is Some ==> is_text(r, "No images found"@),
    {
        if self.images.len() == 0 {
            Some(String::from_str("No images found"))
        } else {
            None
        }
    }

    /// Paints the list into a content surface `width` cells wide.
    pub fn draw(&self, width: u32, p: &Palette) -> (ops: Vec<PaintOp>)
        requires
            row_fits(width),
            self.images@.len() <= u32::MAX,
        ensures
            ops_view(ops@) == list_ops(images_view(self.images@), self.current as nat, width, *p),
    {
        draw_images(&self.images, self.current, width, p)
    }

    /// Handles one input event: moves the cursor, or says which command to
    /// issue, what to show, whether to refresh and redraw, and whether to leave.
    pub fn handle(&mut self, e: Event) -> (r: Step)
        requires
            old(self).wf(),
        ensures
            final(self).wf(),
            final(self).images@ == old(self).images@,
            ({
                let len = old(self).images@.len();
                let cur = old(self).current as int;
                let nonempty = len > 0;
                let name = if nonempty { old(self).images@[cur].name@ } else { Seq::empty() };
                let running = nonempty && old(self).running_at(cur);
                match e {
                    Event::Resize => final(self).current == cur && is_idle(r),
                    Event::Up => {
                        &&& final(self).current == if cur > 0 { cur - 1 } else { cur }
                        &&& r.command is None && r.notice is None && !r.refresh && r.redraw
                        &&& r.exit is Continue
                    },
                    Event::Down => {
                        &&& final(self).current == if cur + 1 < len { cur + 1 } else { cur }
                        &&& r.command is None && r.notice is None && !r.refresh && r.redraw
                        &&& r.exit is Continue
                    },
                    Event::Refresh => {
                        &&& final(self).current == 0
                        &&& r.command is None && r.notice is None && r.refresh && r.redraw
                        &&& r.exit is Continue
                    },
                    Event::Enter => {
                        &&& final(self).current == cur
                        &&& r.exit is Continue
                        &&& len == 0 ==> is_idle(r)
                        &&& nonempty ==> r.refresh && r.redraw
                        &&& running ==> is_kill(r.command, name, SIGNAL_POWEROFF) && is_text(
                            r.notice,
                            "powering off"@,
                        )
                        &&& nonempty && !running ==> is_start(r.command, name) && is_text(r.notice, "starting"@)
                    },
                    Event::Right => {
                        &&& final(self).current == cur
                        &&& r.command is None && r.notice is None && !r.refresh && !r.redraw
                        &&& running ==> (r.exit matches Exit::Shell(n) && n@ == name)
                        &&& !running ==> r.exit is Continue
                    },
                    Event::Char(c) => {
                        &&& final(self).current == cur
                        &&& r.notice is None && !r.refresh && !r.redraw
                        &&& c == 'q' ==> r.command is None && r.exit is Quit
                        &&& c == 'r' ==> r.exit is Continue && (running ==> is_kill(
                            r.command,
                            name,
                            SIGNAL_REBOOT,
                        )) && (!running ==> r.command is None)
                        &&& c != 'q' && c != 'r' ==> r.command is None && r.exit is Invalid
                    },
                    Event::Other => final(self).current == cur && r.command is None && r.notice is None
                        && !r.refresh && !r.redraw && r.exit is Invalid,
                }
            }),
    {
        let idle = Step { command: None, notice: None, refresh: false, redraw: false, exit: Exit::Continue };
        let len = self.images.len();
        proof {
            reveal_strlit("leader");
            reveal_strlit("fail");
        }
        match e {
            Event::Resize => idle,
            Event::Up => {
                if self.current > 0 {
                    self.current = self.current - 1;
                }
                Step { redraw: true, ..idle }
            },
            Event::Down => {
                if self.current + 1 < len {
                    self.current = self.current + 1;
                }
                Step { redraw: true, ..idle }
            },
            Event::Refresh => {
                self.current = 0;
                Step { refresh: true, redraw: true, ..idle }
            },
            Event::Enter => {
                if len == 0 {
                    return idle;
                }
                let img = &self.images[self.current];
                if img.machine.is_some() {
                    let cmd = Command::Kill {
                        name: img.name.clone(),
                        who: String::from_str("leader"),
                        signal: SIGNAL_POWEROFF,
                    };
                    Step {
                        command: Some(cmd),
                        notice: Some(String::from_str("powering off")),
                        refresh: true,
                        redraw: true,
                        exit: Exit::Continue,
                    }
                } else {
                    let unit = String::from_str("systemd-nspawn@").concat(img.name.as_str()).concat(".service");
                    let cmd = Command::StartUnit { unit, mode: String::from_str("fail") };
                    Step {
                        command: Some(cmd),
                        notice: Some(String::from_str("starting")),
                        refresh: true,
                        redraw: true,
                        exit: Exit::Continue,
                    }
                }
            },
            Event::Right => {
                if len > 0 && self.images[self.current].machine.is_some() {
                    Step { exit: Exit::Shell(self.images[self.current].name.clone()), ..idle }
                } else {
                    idle
                }
            },
            Event::Char(c) => {
                if c == 'q' {
                    Step { exit: Exit::Quit, ..idle }
                } else if c == 'r' {
                    if len > 0 && self.images[self.current].machine.is_some() {
                        let cmd = Command::Kill {
                            name: self.images[self.current].name.clone(),
                            who: String::from_str("leader"),
                            signal: SIGNAL_REBOOT,
                        };
                        Step { command: Some(cmd), ..idle }
                    } else {
                        idle
                    }
                } else {
                    Step { exit: Exit::Invalid, ..idle }
                }
            },
            Event::Other => Step { exit: Exit::Invalid, ..idle },
        }
    }
}

} // verus!
