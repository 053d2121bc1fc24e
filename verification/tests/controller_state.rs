use monitors::controller::{frame, App, Frame, Host, Input, Key, Page};
use monitors::data::{Core, CpuInfo, Data, Memory, Process};
use monitors::layout::Rect;
use monitors::pages::Widget;

const HOST: Host = Host { is_linux: true, gpus: 1 };

fn snapshot(names: &[&str]) -> Data {
    Data {
        cpu: CpuInfo {
            vendor: String::new(),
            brand: String::new(),
            usage: 0,
            cores: vec![Core { name: String::from("cpu0"), usage: 0, frequency: 0 }],
        },
        processes: names
            .iter()
            .enumerate()
            .map(|(i, name)| Process {
                user: String::new(),
                name: String::from(*name),
                pid: i as u32,
                memory: 0,
                cpu: 0,
                command: String::new(),
                run_time: 0,
                total_m: 0,
            })
            .collect(),
        disks: Vec::new(),
        memory: Memory::default(),
        networks: Vec::new(),
    }
}

fn on_processes(names: &[&str], selected: Option<usize>) -> App {
    let mut app = App::new();
    app.history.append(snapshot(names));
    app.page = Page::Processes;
    app.selected = selected;
    app
}

fn area() -> Rect {
    Rect::new(0, 0, 80, 24)
}

#[test]
fn a_new_app_shows_the_first_page() {
    let app = App::new();
    assert!(!app.exit);
    assert_eq!(app.page, Page::Stats1);
    assert_eq!(app.selected, None);
    assert_eq!(app.history.len(), 0);
}

#[test]
fn right_visits_every_page_and_comes_round() {
    let mut app = App::new();
    let mut seen = Vec::new();
    for _ in 0..5 {
        assert_eq!(app.handle_key_event(Key::Right), None);
        seen.push(app.page);
    }
    assert_eq!(seen, vec![Page::Stats2, Page::Monitor, Page::Processes, Page::History, Page::Stats1]);
}

#[test]
fn left_visits_every_page_the_other_way() {
    let mut app = App::new();
    let mut seen = Vec::new();
    for _ in 0..5 {
        assert_eq!(app.handle_key_event(Key::Left), None);
        seen.push(app.page);
    }
    assert_eq!(seen, vec![Page::History, Page::Processes, Page::Monitor, Page::Stats2, Page::Stats1]);
}

#[test]
fn next_and_previous_undo_each_other() {
    for page in [Page::Stats1, Page::Stats2, Page::Monitor, Page::Processes, Page::History] {
        let mut app = App::new();
        app.page = page;
        app.next();
        app.previous();
        assert_eq!(app.page, page);
        app.previous();
        app.next();
        assert_eq!(app.page, page);
    }
}

#[test]
fn quit_asks_to_exit_and_changes_nothing_else() {
    let mut app = on_processes(&["a", "b"], Some(1));
    assert_eq!(app.handle_key_event(Key::Quit), None);
    assert!(app.exit);
    assert_eq!(app.page, Page::Processes);
    assert_eq!(app.selected, Some(1));
}

#[test]
fn exit_sets_the_flag() {
    let mut app = App::new();
    app.exit();
    assert!(app.exit);
}

#[test]
fn any_table_key_selects_the_first_row_when_none_is_selected() {
    for key in [Key::Up, Key::Down, Key::Kill, Key::Escape] {
        let mut app = on_processes(&["a", "b", "c"], None);
        assert_eq!(app.handle_key_event(key), None);
        assert_eq!(app.selected, Some(0));
    }
}

#[test]
fn no_row_is_selected_in_an_empty_table() {
    for key in [Key::Up, Key::Down, Key::Kill, Key::Escape] {
        let mut app = on_processes(&[], None);
        assert_eq!(app.handle_key_event(key), None);
        assert_eq!(app.selected, None);
        let mut app = App::new();
        app.page = Page::Processes;
        assert_eq!(app.handle_key_event(key), None);
        assert_eq!(app.selected, None);
    }
}

#[test]
fn down_moves_one_row_and_stops_at_the_last() {
    let mut app = on_processes(&["a", "b", "c"], Some(0));
    app.handle_key_event(Key::Down);
    assert_eq!(app.selected, Some(1));
    app.handle_key_event(Key::Down);
    assert_eq!(app.selected, Some(2));
    app.handle_key_event(Key::Down);
    assert_eq!(app.selected, Some(2));
}

#[test]
fn up_moves_one_row_and_stops_at_the_first() {
    let mut app = on_processes(&["a", "b", "c"], Some(2));
    app.handle_key_event(Key::Up);
    assert_eq!(app.selected, Some(1));
    app.handle_key_event(Key::Up);
    assert_eq!(app.selected, Some(0));
    app.handle_key_event(Key::Up);
    assert_eq!(app.selected, Some(0));
}

#[test]
fn escape_clears_the_selection_without_killing() {
    let mut app = on_processes(&["a", "b", "c"], Some(1));
    assert_eq!(app.handle_key_event(Key::Escape), None);
    assert_eq!(app.selected, None);
}

#[test]
fn kill_names_the_process_in_the_selected_row_and_clears_the_selection() {
    let mut app = on_processes(&["a", "b", "x", "d"], Some(2));
    assert_eq!(app.handle_key_event(Key::Kill), Some(String::from("x")));
    assert_eq!(app.selected, None);
    assert_eq!(app.page, Page::Processes);
    assert!(!app.exit);
}

#[test]
fn kill_goes_by_the_newest_snapshot() {
    let mut app = on_processes(&["old0", "old1"], Some(1));
    app.history.append(snapshot(&["new0", "new1", "new2"]));
    assert_eq!(app.handle_key_event(Key::Kill), Some(String::from("new1")));
}

#[test]
fn a_kill_beyond_the_table_kills_nothing_and_clears_the_selection() {
    for stale in [3, 7, usize::MAX] {
        let mut app = on_processes(&["a", "b", "c"], Some(stale));
        assert_eq!(app.handle_key_event(Key::Kill), None);
        assert_eq!(app.selected, None);
    }
    let mut app = on_processes(&[], Some(0));
    assert_eq!(app.handle_key_event(Key::Kill), None);
    assert_eq!(app.selected, None);
    let mut app = App::new();
    app.page = Page::Processes;
    app.selected = Some(0);
    assert_eq!(app.handle_key_event(Key::Kill), None);
    assert_eq!(app.selected, None);
}

#[test]
fn a_kill_in_the_last_row_names_it() {
    let mut app = on_processes(&["a", "b", "c"], Some(2));
    assert_eq!(app.handle_key_event(Key::Kill), Some(String::from("c")));
}

#[test]
fn an_arrow_from_beyond_the_table_moves_from_its_last_row() {
    let mut app = on_processes(&["a", "b", "c"], Some(7));
    app.handle_key_event(Key::Up);
    assert_eq!(app.selected, Some(1));
    let mut app = on_processes(&["a", "b", "c"], Some(7));
    app.handle_key_event(Key::Down);
    assert_eq!(app.selected, Some(2));
}

#[test]
fn table_keys_do_nothing_on_other_pages() {
    for page in [Page::Stats1, Page::Stats2, Page::Monitor, Page::History] {
        for key in [Key::Up, Key::Down, Key::Kill, Key::Escape] {
            for selected in [None, Some(1)] {
                let mut app = on_processes(&["a", "b"], selected);
                app.page = page;
                assert_eq!(app.handle_key_event(key), None);
                assert_eq!(app.selected, selected);
                assert_eq!(app.page, page);
            }
        }
    }
}

#[test]
fn other_keys_do_nothing() {
    let mut app = on_processes(&["a", "b"], Some(1));
    assert_eq!(app.handle_key_event(Key::Other), None);
    assert_eq!(app.selected, Some(1));
    assert_eq!(app.page, Page::Processes);
    assert!(!app.exit);
}

#[test]
fn the_selection_outlives_a_change_of_page() {
    let mut app = on_processes(&["a", "b", "c"], Some(2));
    app.handle_key_event(Key::Right);
    assert_eq!(app.page, Page::History);
    assert_eq!(app.selected, Some(2));
    app.handle_key_event(Key::Left);
    assert_eq!(app.page, Page::Processes);
    assert_eq!(app.selected, Some(2));
    app.handle_key_event(Key::Left);
    assert_eq!(app.page, Page::Monitor);
    assert_eq!(app.selected, Some(2));
}

#[test]
fn frame_of_a_usual_screen() {
    assert_eq!(frame(area()), Frame {
        title_bar: Rect { x: 0, y: 0, width: 80, height: 1 },
        main_area: Rect { x: 0, y: 1, width: 80, height: 22 },
        instruction: Rect { x: 0, y: 23, width: 80, height: 1 },
    });
}

#[test]
fn frame_of_very_low_screens() {
    assert_eq!(frame(Rect::new(2, 3, 9, 2)), Frame {
        title_bar: Rect { x: 2, y: 3, width: 9, height: 1 },
        main_area: Rect { x: 2, y: 4, width: 9, height: 0 },
        instruction: Rect { x: 2, y: 4, width: 9, height: 1 },
    });
    let one = frame(Rect::new(2, 3, 9, 1));
    assert_eq!(one.title_bar.height + one.instruction.height, 1);
    assert_eq!(one.main_area.height, 0);
    assert_eq!((one.title_bar.x, one.title_bar.y, one.title_bar.width), (2, 3, 9));
    assert_eq!(one.main_area.y, 3 + one.title_bar.height);
    assert_eq!((one.instruction.y, one.instruction.x, one.instruction.width), (one.main_area.y, 2, 9));
    assert_eq!(frame(Rect::new(2, 3, 9, 0)), Frame {
        title_bar: Rect { x: 2, y: 3, width: 9, height: 0 },
        main_area: Rect { x: 2, y: 3, width: 9, height: 0 },
        instruction: Rect { x: 2, y: 3, width: 9, height: 0 },
    });
}

#[test]
fn the_first_frame_is_empty() {
    let mut app = App::new();
    let screen = app.draw(area(), None, HOST);
    assert!(screen.plan.cells.is_empty());
    assert!(screen.plan.widgets.is_empty());
    assert_eq!(screen.frame, frame(area()));
    assert_eq!(screen.instructions, " \u{2190} <Left> | \u{2192} <Right> | Quit <q>");
    assert_eq!(app.history.len(), 0);
}

#[test]
fn draw_retains_an_arrival_and_draws_from_it() {
    let mut app = App::new();
    let screen = app.draw(area(), Some(snapshot(&["a"])), HOST);
    assert_eq!(app.history.len(), 1);
    assert_eq!(screen.plan.cells.len(), 6);
    assert_eq!(screen.plan.widgets.len(), 6);
    assert_eq!(screen.plan.cells[0], Rect { x: 0, y: 1, width: 80, height: 4 });
}

#[test]
fn draw_without_an_arrival_carries_the_newest_snapshot_forward() {
    let mut app = App::new();
    app.draw(area(), Some(snapshot(&["a"])), HOST);
    app.page = Page::Monitor;
    let screen = app.draw(area(), None, HOST);
    assert_eq!(app.history.len(), 1);
    assert_eq!(screen.plan.cells.len(), 36);
    assert_eq!(screen.plan.widgets, vec![
        Widget::CpuGauge,
        Widget::MemoryGauge,
        Widget::SwapGauge,
        Widget::CoreGauge(0)
    ]);
}

#[test]
fn draw_never_lets_the_history_grow_past_its_bound() {
    let mut app = App::new();
    for i in 0..130u32 {
        let mut data = snapshot(&["a"]);
        data.cpu.usage = i;
        app.draw(area(), Some(data), HOST);
    }
    assert_eq!(app.history.len(), 100);
    assert_eq!(app.history.entries()[0].cpu.usage, 30);
    assert_eq!(app.history.latest().unwrap().cpu.usage, 129);
}

#[test]
fn draw_each_page() {
    let mut app = App::new();
    app.draw(area(), Some(snapshot(&["a", "b"])), HOST);
    let mut sizes = Vec::new();
    for _ in 0..5 {
        app.next();
        let screen = app.draw(area(), None, HOST);
        sizes.push((app.page, screen.plan.cells.len(), screen.plan.widgets.len()));
    }
    assert_eq!(sizes, vec![
        (Page::Stats2, 12, 1),
        (Page::Monitor, 36, 4),
        (Page::Processes, 1, 1),
        (Page::History, 3, 3),
        (Page::Stats1, 6, 6),
    ]);
}

#[test]
fn draw_counts_graphics_processors_on_linux_only() {
    let mut app = App::new();
    app.page = Page::Stats2;
    let screen = app.draw(area(), Some(snapshot(&[])), Host { is_linux: false, gpus: 3 });
    assert!(screen.plan.widgets.is_empty());
    let screen = app.draw(area(), None, Host { is_linux: true, gpus: 3 });
    assert_eq!(screen.plan.widgets, vec![Widget::Gpu(0), Widget::Gpu(1), Widget::Gpu(2)]);
}

#[test]
fn drawing_the_table_brings_the_selection_within_it() {
    let mut app = on_processes(&["a", "b", "c", "d"], Some(3));
    let screen = app.draw(area(), Some(snapshot(&["a", "b"])), HOST);
    assert_eq!(app.selected, Some(1));
    assert_eq!(screen.plan.widgets, vec![Widget::ProcessTable]);
    assert_eq!(screen.plan.cells, vec![Rect { x: 0, y: 1, width: 80, height: 22 }]);
    assert_eq!(
        screen.instructions,
        " \u{2190} <Left> | \u{2192} <Right> | Quit <q> | \u{2191} <Up> | \u{2193} <Down> | Kill <k> | DeSelect <Esc>"
    );
    app.draw(area(), Some(snapshot(&[])), HOST);
    assert_eq!(app.selected, None);
}

#[test]
fn drawing_another_page_leaves_the_selection_alone() {
    let mut app = on_processes(&["a", "b", "c", "d"], Some(3));
    app.page = Page::Monitor;
    app.draw(area(), Some(snapshot(&["a"])), HOST);
    assert_eq!(app.selected, Some(3));
}

#[test]
fn killing_by_name_reaches_every_process_of_that_name() {
    let mut live = snapshot(&["x", "bash", "x", "xx", "X", "x"]).processes;
    for (i, process) in live.iter_mut().enumerate() {
        process.pid = 100 + i as u32;
    }
    assert_eq!(monitors::controller::kill_requests(&String::from("x"), &live), vec![100, 102, 105]);
    assert_eq!(monitors::controller::kill_requests(&String::from("bash"), &live), vec![101]);
}

#[test]
fn killing_by_a_name_that_nothing_bears_reaches_nothing() {
    let live = snapshot(&["a", "b"]).processes;
    assert!(monitors::controller::kill_requests(&String::from("x"), &live).is_empty());
    assert!(monitors::controller::kill_requests(&String::from("x"), &Vec::new()).is_empty());
}

#[test]
fn a_kill_in_the_third_row_reaches_all_that_share_its_name() {
    let mut app = on_processes(&["a", "b", "x", "x"], Some(2));
    let name = app.handle_key_event(Key::Kill).unwrap();
    assert_eq!(name, "x");
    assert_eq!(app.selected, None);
    let live = snapshot(&["x", "y", "x"]).processes;
    assert_eq!(monitors::controller::kill_requests(&name, &live), vec![0, 2]);
}

#[test]
fn letters_q_and_k_are_keys() {
    assert_eq!(Key::from_char('q'), Key::Quit);
    assert_eq!(Key::from_char('k'), Key::Kill);
    for c in ['Q', 'K', 'a', ' ', '\n', '\u{2190}'] {
        assert_eq!(Key::from_char(c), Key::Other);
    }
}

#[test]
fn the_interval_is_one_second() {
    assert_eq!(monitors::controller::INTERVAL, 1000);
}

#[test]
fn next_from_monitor_is_processes_and_previous_from_the_first_page_is_history() {
    let mut app = App::new();
    app.page = Page::Monitor;
    app.next();
    assert_eq!(app.page, Page::Processes);
    app.next();
    assert_eq!(app.page, Page::History);
    app.next();
    assert_eq!(app.page, Page::Stats1);
    app.previous();
    assert_eq!(app.page, Page::History);
}

#[test]
fn only_a_key_that_went_down_is_handled() {
    for key in [Key::Quit, Key::Left, Key::Right, Key::Up, Key::Down, Key::Kill, Key::Escape] {
        for input in [Input::Release(key), Input::Repeat(key), Input::Other] {
            let mut app = on_processes(&["a", "b"], Some(1));
            assert_eq!(app.handle_event(input), None);
            assert!(!app.exit);
            assert_eq!(app.page, Page::Processes);
            assert_eq!(app.selected, Some(1));
        }
    }
}

#[test]
fn a_key_that_went_down_is_handled_as_the_key() {
    let mut app = on_processes(&["a", "x"], Some(1));
    assert_eq!(app.handle_event(Input::Press(Key::Kill)), Some(String::from("x")));
    assert_eq!(app.selected, None);
    assert_eq!(app.handle_event(Input::Press(Key::Right)), None);
    assert_eq!(app.page, Page::History);
    assert_eq!(app.handle_event(Input::Press(Key::Quit)), None);
    assert!(app.exit);
}
