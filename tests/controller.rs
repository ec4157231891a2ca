use mat::dashboard::{Command, Dashboard, Event, Exit, SIGNAL_POWEROFF, SIGNAL_REBOOT};
use mat::snapshot::{Image, Machine};

fn image(name: &str) -> Image {
    Image {
        name: name.to_string(),
        kind: "directory".to_string(),
        ro: true,
        t_created: 1,
        t_modified: 2,
        size: 4096,
        path: String::new(),
        machine: None,
    }
}

fn machine(name: &str) -> Machine {
    Machine { name: name.to_string(), class: "container".to_string(), id: "00".to_string(), path: String::new() }
}

fn loaded() -> Dashboard {
    let mut d = Dashboard::new();
    let listing = vec![image("alpine"), image(".hidden"), image("web")];
    assert!(d.refresh(Some(vec![machine("web")]), Some(listing)));
    d
}

#[test]
fn empty_backend_shows_notice() {
    let mut d = Dashboard::new();
    d.refresh(Some(Vec::new()), Some(Vec::new()));
    assert_eq!(d.startup_notice(), Some("No images found".to_string()));
    assert_eq!(loaded().startup_notice(), None);
}

#[test]
fn start_action_on_stopped_entry() {
    let mut d = loaded();
    let s = d.handle(Event::Enter);
    assert_eq!(
        s.command,
        Some(Command::StartUnit {
            unit: "systemd-nspawn@alpine.service".to_string(),
            mode: "fail".to_string()
        })
    );
    assert_eq!(s.notice, Some("starting".to_string()));
    assert!(s.refresh && s.redraw);
    assert_eq!(s.exit, Exit::Continue);
}

#[test]
fn stop_action_on_running_entry() {
    let mut d = loaded();
    d.handle(Event::Down);
    let s = d.handle(Event::Enter);
    assert_eq!(
        s.command,
        Some(Command::Kill { name: "web".to_string(), who: "leader".to_string(), signal: SIGNAL_POWEROFF })
    );
    assert_eq!(s.notice, Some("powering off".to_string()));
    assert!(s.refresh && s.redraw);
}

#[test]
fn cursor_stays_in_range() {
    let mut d = loaded();
    let s = d.handle(Event::Up);
    assert_eq!(d.current, 0);
    assert!(s.redraw && !s.refresh);
    d.handle(Event::Down);
    assert_eq!(d.current, 1);
    d.handle(Event::Down);
    d.handle(Event::Down);
    assert_eq!(d.current, 1);
}

#[test]
fn explicit_refresh_resets_cursor() {
    let mut d = loaded();
    d.handle(Event::Down);
    let s = d.handle(Event::Refresh);
    assert_eq!(d.current, 0);
    assert!(s.refresh && s.redraw);
}

#[test]
fn action_refresh_keeps_or_clamps_cursor() {
    let mut d = loaded();
    d.handle(Event::Down);
    d.refresh(None, Some(vec![image("alpine"), image("web")]));
    assert_eq!(d.current, 1);
    d.refresh(None, Some(vec![image("alpine")]));
    assert_eq!(d.current, 0);
    d.refresh(None, None);
    assert_eq!(d.images.len(), 1);
}

#[test]
fn shell_request() {
    let mut d = loaded();
    let s = d.handle(Event::Right);
    assert_eq!(s.exit, Exit::Continue);
    d.handle(Event::Down);
    let s = d.handle(Event::Right);
    assert_eq!(s.exit, Exit::Shell("web".to_string()));
    assert!(s.command.is_none() && !s.redraw);
}

#[test]
fn reboot_quit_and_unknown_keys() {
    let mut d = loaded();
    assert_eq!(d.handle(Event::Char('r')).command, None);
    d.handle(Event::Down);
    assert_eq!(
        d.handle(Event::Char('r')).command,
        Some(Command::Kill { name: "web".to_string(), who: "leader".to_string(), signal: SIGNAL_REBOOT })
    );
    assert_eq!(d.handle(Event::Char('q')).exit, Exit::Quit);
    assert_eq!(d.handle(Event::Char('x')).exit, Exit::Invalid);
    assert_eq!(d.handle(Event::Other).exit, Exit::Invalid);
    let s = d.handle(Event::Resize);
    assert!(!s.redraw && !s.refresh && s.exit == Exit::Continue);
}

#[test]
fn enter_on_empty_does_nothing() {
    let mut d = Dashboard::new();
    let s = d.handle(Event::Enter);
    assert!(s.command.is_none() && !s.refresh && !s.redraw);
}

#[test]
fn draw_marks_running_row() {
    let d = loaded();
    let ops = d.draw(30, &mat::paint::Palette::opensuse());
    assert!(ops.contains(&mat::paint::PaintOp::Bold(true)));
    assert!(ops.contains(&mat::paint::PaintOp::Bold(false)));
}
