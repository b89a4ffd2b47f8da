use procdash::session::{
    help_line, Action, Key, KeyInput, Mode, MouseInput, Region, Session, SignalKind,
};
use procdash::snapshot::{ProcStatus, ProcessRecord, Snapshot, SystemStats};

fn rec(pid: u32, name: &str, cpu_tenths: u32, status: ProcStatus) -> ProcessRecord {
    ProcessRecord {
        pid,
        name: name.as_bytes().to_vec(),
        user: None,
        cpu_tenths,
        memory_bytes: 0,
        virtual_memory_bytes: 0,
        disk_read_bytes: 0,
        disk_written_bytes: 0,
        status,
        exe: None,
        cmd: Vec::new(),
        cwd: None,
        start_time_seconds: 0,
        run_time_seconds: 0,
    }
}

fn snap(procs: Vec<ProcessRecord>) -> Snapshot {
    Snapshot {
        procs,
        stats: SystemStats {
            total_memory_bytes: 0,
            used_memory_bytes: 0,
            total_swap_bytes: 0,
            used_swap_bytes: 0,
            cpu_tenths: 0,
            uptime_seconds: 0,
        },
    }
}

fn sample_snapshot() -> Snapshot {
    snap(vec![
        rec(1, "init", 0, ProcStatus::Running),
        rec(2, "bash", 25, ProcStatus::Sleeping),
        rec(3, "zombie_proc", 0, ProcStatus::Zombie),
    ])
}

fn key(c: u8) -> KeyInput {
    KeyInput { code: Key::Char(c), ctrl: false }
}

fn esc() -> KeyInput {
    KeyInput { code: Key::Esc, ctrl: false }
}

fn enter() -> KeyInput {
    KeyInput { code: Key::Enter, ctrl: false }
}

fn backspace() -> KeyInput {
    KeyInput { code: Key::Backspace, ctrl: false }
}

#[test]
fn new_session_selects_first_row_when_rows_exist() {
    let s = Session::new(sample_snapshot());
    assert!(s.running);
    assert_eq!(s.mode, Mode::Normal);
    assert_eq!(s.selection, Some(0));
}

#[test]
fn new_session_over_empty_snapshot_selects_nothing() {
    let s = Session::new(snap(Vec::new()));
    assert_eq!(s.selection, None);
}

#[test]
fn quit_keys_end_the_loop() {
    for k in [esc(), key(b'q'), KeyInput { code: Key::Char(b'c'), ctrl: true }, KeyInput {
        code: Key::Char(b'C'),
        ctrl: true,
    }] {
        let mut s = Session::new(sample_snapshot());
        assert_eq!(s.on_key_event(k), Action::Nothing);
        assert!(!s.running);
        assert_eq!(s.mode, Mode::Normal);
    }
}

#[test]
fn plain_c_does_not_quit() {
    let mut s = Session::new(sample_snapshot());
    s.on_key_event(key(b'c'));
    assert!(s.running);
}

#[test]
fn navigation_moves_and_clamps_selection() {
    let mut s = Session::new(sample_snapshot());
    assert_eq!(s.selection, Some(0));
    s.on_key_event(key(b'j'));
    assert_eq!(s.selection, Some(1));
    s.on_key_event(key(b'j'));
    assert_eq!(s.selection, Some(2));
    s.on_key_event(key(b'j'));
    assert_eq!(s.selection, Some(2));
    s.on_key_event(key(b'k'));
    assert_eq!(s.selection, Some(1));
    s.on_key_event(key(b'k'));
    s.on_key_event(key(b'k'));
    assert_eq!(s.selection, Some(0));
}

#[test]
fn kill_selected_with_force_signal() {
    // The sample rows project as [bash, init, zombie_proc]; selecting
    // row 0 and confirming with "2" must force-kill bash's pid, once.
    let mut s = Session::new(sample_snapshot());
    assert_eq!(s.selection, Some(0));
    assert_eq!(s.on_key_event(key(b'd')), Action::Nothing);
    assert_eq!(s.mode, Mode::ConfirmKill);
    assert_eq!(s.pending_kill, Some(2));
    let action = s.on_key_event(key(b'2'));
    assert_eq!(action, Action::SendSignal { pid: 2, kind: SignalKind::ForceKill });
    assert_eq!(s.mode, Mode::Normal);
    assert_eq!(s.pending_kill, None);
}

#[test]
fn kill_selected_with_graceful_signal() {
    let mut s = Session::new(sample_snapshot());
    s.on_key_event(key(b'j'));
    s.on_key_event(key(b'd'));
    // Row 1 of the projection is init (pid 1).
    assert_eq!(s.pending_kill, Some(1));
    let action = s.on_key_event(key(b'1'));
    assert_eq!(action, Action::SendSignal { pid: 1, kind: SignalKind::Terminate });
    assert_eq!(s.mode, Mode::Normal);
    assert_eq!(s.pending_kill, None);
}

#[test]
fn kill_confirm_escape_discards_target() {
    let mut s = Session::new(sample_snapshot());
    s.on_key_event(key(b'd'));
    assert_eq!(s.pending_kill, Some(2));
    assert_eq!(s.on_key_event(esc()), Action::Nothing);
    assert_eq!(s.mode, Mode::Normal);
    assert_eq!(s.pending_kill, None);
}

#[test]
fn kill_confirm_ignores_other_keys() {
    let mut s = Session::new(sample_snapshot());
    s.on_key_event(key(b'd'));
    assert_eq!(s.on_key_event(key(b'x')), Action::Nothing);
    assert_eq!(s.mode, Mode::ConfirmKill);
    assert_eq!(s.pending_kill, Some(2));
}

#[test]
fn kill_request_without_rows_is_a_no_op() {
    let mut s = Session::new(snap(Vec::new()));
    assert_eq!(s.on_key_event(key(b'd')), Action::Nothing);
    assert_eq!(s.mode, Mode::Normal);
    assert_eq!(s.pending_kill, None);
}

#[test]
fn pending_target_survives_snapshot_replacement() {
    // The target is captured at request time; a refresh that reorders
    // or drops rows must not change it.
    let mut s = Session::new(sample_snapshot());
    s.on_key_event(key(b'd'));
    assert_eq!(s.pending_kill, Some(2));
    s.set_snapshot(snap(vec![rec(9, "other", 990, ProcStatus::Running)]));
    assert_eq!(s.pending_kill, Some(2));
    // pid 2 is gone from the snapshot, so confirming sends nothing.
    assert_eq!(s.on_key_event(key(b'2')), Action::Nothing);
    assert_eq!(s.pending_kill, None);
}

#[test]
fn kill_by_pid_for_missing_process_is_silent() {
    let mut s = Session::new(sample_snapshot());
    s.on_key_event(key(b'p'));
    assert_eq!(s.mode, Mode::EnterKillPid);
    for _ in 0..5 {
        s.on_key_event(key(b'9'));
    }
    assert_eq!(s.kill_input, b"99999".to_vec());
    assert_eq!(s.on_key_event(enter()), Action::Nothing);
    assert_eq!(s.mode, Mode::Normal);
    assert_eq!(s.kill_input, Vec::<u8>::new());
}

#[test]
fn kill_by_pid_for_live_process_force_kills() {
    let mut s = Session::new(sample_snapshot());
    s.on_key_event(key(b'p'));
    s.on_key_event(key(b'3'));
    let action = s.on_key_event(enter());
    assert_eq!(action, Action::SendSignal { pid: 3, kind: SignalKind::ForceKill });
    assert_eq!(s.mode, Mode::Normal);
    assert_eq!(s.kill_input, Vec::<u8>::new());
}

#[test]
fn kill_by_pid_empty_buffer_is_silent() {
    let mut s = Session::new(sample_snapshot());
    s.on_key_event(key(b'p'));
    assert_eq!(s.on_key_event(enter()), Action::Nothing);
    assert_eq!(s.mode, Mode::Normal);
}

#[test]
fn kill_by_pid_buffer_accepts_only_digits() {
    let mut s = Session::new(sample_snapshot());
    s.on_key_event(key(b'p'));
    s.on_key_event(key(b'1'));
    s.on_key_event(key(b'a'));
    s.on_key_event(key(b'2'));
    assert_eq!(s.kill_input, b"12".to_vec());
    s.on_key_event(backspace());
    assert_eq!(s.kill_input, b"1".to_vec());
    s.on_key_event(backspace());
    s.on_key_event(backspace());
    assert_eq!(s.kill_input, Vec::<u8>::new());
    assert_eq!(s.mode, Mode::EnterKillPid);
}

#[test]
fn kill_by_pid_escape_clears_buffer() {
    let mut s = Session::new(sample_snapshot());
    s.on_key_event(key(b'p'));
    s.on_key_event(key(b'7'));
    s.on_key_event(esc());
    assert_eq!(s.mode, Mode::Normal);
    assert_eq!(s.kill_input, Vec::<u8>::new());
}

#[test]
fn reopening_kill_by_pid_starts_with_empty_buffer() {
    let mut s = Session::new(sample_snapshot());
    s.on_key_event(key(b'p'));
    s.on_key_event(key(b'5'));
    s.on_key_event(esc());
    s.on_key_event(key(b'p'));
    assert_eq!(s.kill_input, Vec::<u8>::new());
}

#[test]
fn search_filter_is_applied_live_and_clamps_selection() {
    // Selection 2 points past the one row matching "bash": it must be
    // clamped to a valid index, never left dangling.
    let mut s = Session::new(sample_snapshot());
    s.on_key_event(key(b'j'));
    s.on_key_event(key(b'j'));
    assert_eq!(s.selection, Some(2));
    s.on_key_event(key(b's'));
    assert_eq!(s.mode, Mode::Searching);
    for c in *b"bash" {
        s.on_key_event(key(c));
    }
    assert_eq!(s.filter, b"bash".to_vec());
    assert_eq!(s.selection, Some(0));
    s.on_key_event(enter());
    assert_eq!(s.mode, Mode::Normal);
    assert_eq!(s.filter, b"bash".to_vec());
}

#[test]
fn search_with_no_matches_clears_selection() {
    let mut s = Session::new(sample_snapshot());
    s.on_key_event(key(b's'));
    for c in *b"xyz" {
        s.on_key_event(key(c));
    }
    assert_eq!(s.selection, None);
}

#[test]
fn search_backspace_restores_rows() {
    let mut s = Session::new(sample_snapshot());
    s.on_key_event(key(b's'));
    s.on_key_event(key(b'z'));
    s.on_key_event(key(b'z'));
    assert_eq!(s.filter, b"zz".to_vec());
    s.on_key_event(backspace());
    assert_eq!(s.filter, b"z".to_vec());
    s.on_key_event(backspace());
    s.on_key_event(backspace());
    assert_eq!(s.filter, Vec::<u8>::new());
    s.on_key_event(esc());
    assert_eq!(s.mode, Mode::Normal);
}

#[test]
fn detail_view_opens_and_only_escape_closes_it() {
    let mut s = Session::new(sample_snapshot());
    s.on_key_event(enter());
    assert_eq!(s.mode, Mode::ViewingDetail);
    s.on_key_event(key(b'q'));
    s.on_key_event(key(b'j'));
    s.on_key_event(enter());
    assert_eq!(s.mode, Mode::ViewingDetail);
    assert!(s.running);
    assert_eq!(s.selection, Some(0));
    s.on_key_event(esc());
    assert_eq!(s.mode, Mode::Normal);
}

#[test]
fn selection_stays_in_bounds_after_every_transition() {
    // Drive the session through mode changes, edits and snapshot
    // replacements, checking the selection bound after each step.
    let mut s = Session::new(sample_snapshot());
    let steps: Vec<KeyInput> = vec![
        key(b'j'),
        key(b'j'),
        key(b'j'),
        key(b's'),
        key(b'b'),
        key(b'a'),
        backspace(),
        esc(),
        key(b'k'),
        key(b'd'),
        esc(),
        key(b'p'),
        key(b'1'),
        enter(),
    ];
    for k in steps {
        s.on_key_event(k);
        let visible = procdash::projection::project(&s.snapshot, &s.filter).len();
        match s.selection {
            None => {}
            Some(i) => assert!(i < visible),
        }
    }
    s.set_snapshot(snap(vec![rec(1, "init", 0, ProcStatus::Running)]));
    let visible = procdash::projection::project(&s.snapshot, &s.filter).len();
    match s.selection {
        None => {}
        Some(i) => assert!(i < visible),
    }
    s.set_snapshot(snap(Vec::new()));
    assert_eq!(s.selection, None);
}

#[test]
fn snapshot_shrink_clamps_selection_to_last_row() {
    let mut s = Session::new(sample_snapshot());
    s.on_key_event(key(b'j'));
    s.on_key_event(key(b'j'));
    assert_eq!(s.selection, Some(2));
    s.set_snapshot(snap(vec![
        rec(1, "init", 0, ProcStatus::Running),
        rec(2, "bash", 25, ProcStatus::Sleeping),
    ]));
    assert_eq!(s.selection, Some(1));
}

#[test]
fn sixty_one_frames_refresh_once_and_fill_the_history() {
    // With no input, 61 frames must ask for exactly one process-table
    // refresh (on frame 60), sample the CPU every frame, and leave
    // min(61, chart width) samples.
    let mut s = Session::new(sample_snapshot());
    let mut refreshes = 0;
    for i in 1..=61u64 {
        let refresh = s.tick(200, 42);
        if refresh {
            refreshes += 1;
            assert_eq!(i, 60);
        }
    }
    assert_eq!(refreshes, 1);
    assert_eq!(s.frames, 61);
    assert_eq!(s.history.len(), 61);
    assert_eq!(s.history.samples[0].frame, 1);
    assert_eq!(s.history.samples[60].frame, 61);
    assert!(s.history.samples.iter().all(|p| p.cpu_tenths == 42));
}

#[test]
fn narrow_chart_bounds_the_history() {
    let mut s = Session::new(sample_snapshot());
    for _ in 0..61 {
        s.tick(10, 0);
    }
    assert_eq!(s.history.len(), 10);
    assert_eq!(s.history.axis_bounds(), Some((52, 61)));
}

#[test]
fn chart_wider_than_the_cap_still_bounds_at_the_cap() {
    let mut s = Session::new(sample_snapshot());
    for _ in 0..200 {
        s.tick(500, 0);
    }
    assert_eq!(s.history.len(), 120);
}

#[test]
fn scroll_moves_selection_with_clamping() {
    let area = Region { x: 0, y: 0, width: 80, height: 20 };
    let mut s = Session::new(sample_snapshot());
    s.on_mouse_event(MouseInput::ScrollDown, area);
    assert_eq!(s.selection, Some(1));
    s.on_mouse_event(MouseInput::ScrollDown, area);
    s.on_mouse_event(MouseInput::ScrollDown, area);
    assert_eq!(s.selection, Some(2));
    s.on_mouse_event(MouseInput::ScrollUp, area);
    s.on_mouse_event(MouseInput::ScrollUp, area);
    s.on_mouse_event(MouseInput::ScrollUp, area);
    assert_eq!(s.selection, Some(0));
}

#[test]
fn click_selects_the_clicked_projection_row() {
    let area = Region { x: 10, y: 5, width: 60, height: 12 };
    let mut s = Session::new(sample_snapshot());
    // Content rows start two screen rows below the table's top.
    s.on_mouse_event(MouseInput::LeftDown { column: 12, row: 9 }, area);
    assert_eq!(s.selection, Some(2));
    s.on_mouse_event(MouseInput::LeftDown { column: 12, row: 7 }, area);
    assert_eq!(s.selection, Some(0));
}

#[test]
fn click_outside_the_table_is_ignored() {
    let area = Region { x: 10, y: 5, width: 60, height: 12 };
    let mut s = Session::new(sample_snapshot());
    s.on_mouse_event(MouseInput::LeftDown { column: 5, row: 9 }, area);
    s.on_mouse_event(MouseInput::LeftDown { column: 12, row: 5 }, area);
    s.on_mouse_event(MouseInput::LeftDown { column: 12, row: 30 }, area);
    assert_eq!(s.selection, Some(0));
}

#[test]
fn click_past_the_last_row_is_ignored() {
    let area = Region { x: 0, y: 0, width: 80, height: 20 };
    let mut s = Session::new(sample_snapshot());
    s.on_mouse_event(MouseInput::LeftDown { column: 1, row: 10 }, area);
    assert_eq!(s.selection, Some(0));
}

#[test]
fn mouse_is_ignored_while_an_overlay_is_active() {
    let area = Region { x: 0, y: 0, width: 80, height: 20 };
    let mut s = Session::new(sample_snapshot());
    s.on_key_event(key(b's'));
    s.on_mouse_event(MouseInput::ScrollDown, area);
    assert_eq!(s.selection, Some(0));
    s.on_key_event(esc());
    s.on_key_event(key(b'd'));
    s.on_mouse_event(MouseInput::LeftDown { column: 1, row: 4 }, area);
    assert_eq!(s.selection, Some(0));
    assert_eq!(s.mode, Mode::ConfirmKill);
}

#[test]
fn help_line_names_the_key_bindings() {
    let h = help_line();
    assert!(h.contains("[q/Esc] Quit"));
    assert!(h.contains("[p] Kill by PID"));
}
