use std::collections::VecDeque;

use anup::tui::event::{push_log_message, AppEventNotification, EventResult, PanelEvent};
use anup::tui::panel::log::{LogKey, SCROLL_AMOUNT};
use anup::tui::panel::main::MainKey;
use anup::tui::panel::{Log, Main, Stack};
use anup::tui::widget::log::Log as LogWidget;
use anup::tui::widget::series::list::ViewState;
use anup::tui::{Flushed, LogBuffer, MAX_LOG_MESSAGES};

#[test]
fn stack_never_pops_its_last_panel() {
    let mut stack = Stack::new("main");
    stack.pop();
    assert_eq!(*stack.current(), "main");
    stack.push("log");
    assert_eq!(*stack.current(), "log");
    stack.pop();
    assert_eq!(*stack.current(), "main");
    stack.pop();
    stack.pop();
    assert_eq!(*stack.current(), "main");
}

#[test]
fn current_panel_can_be_changed_in_place() {
    let mut stack = Stack::new(1);
    stack.push(2);
    *stack.current() = 5;
    stack.pop();
    assert_eq!(*stack.current(), 1);
    stack.push(3);
    assert_eq!(*stack.current(), 3);
}

#[test]
fn log_scrolls_by_steps_and_back_to_the_end() {
    let mut log = Log::new();
    assert_eq!(log.visible_offset(100), 100);
    assert_eq!(log.process_input(LogKey::ScrollUp, 100, 20), EventResult::Continue(None));
    assert_eq!(log.visible_offset(100), 100 - SCROLL_AMOUNT);
    log.process_input(LogKey::ScrollUp, 100, 20);
    assert_eq!(log.visible_offset(100), 80);
    // never above the first screenful
    for _ in 0..10 {
        log.process_input(LogKey::ScrollUp, 100, 20);
    }
    assert_eq!(log.visible_offset(100), 20);
    log.process_input(LogKey::ScrollDown, 100, 20);
    assert_eq!(log.visible_offset(100), 30);
    // reaching the end follows new messages again
    for _ in 0..10 {
        log.process_input(LogKey::ScrollDown, 100, 20);
    }
    assert_eq!(log.visible_offset(150), 150);
    log.process_input(LogKey::Home, 100, 20);
    assert_eq!(log.visible_offset(100), 20);
    log.process_input(LogKey::End, 100, 20);
    assert_eq!(log.visible_offset(120), 120);
    assert_eq!(
        log.process_input(LogKey::Escape, 100, 20),
        EventResult::Continue(Some(PanelEvent::PopPanel))
    );
}

#[test]
fn scrolled_log_moves_with_a_full_buffer() {
    let mut log = Log::new();
    log.process_input(LogKey::Home, MAX_LOG_MESSAGES, 10);
    log.process_input(LogKey::ScrollDown, MAX_LOG_MESSAGES, 10);
    assert_eq!(log.visible_offset(MAX_LOG_MESSAGES), 20);
    log.process_event_notification(AppEventNotification::LogMessage, MAX_LOG_MESSAGES, 10);
    assert_eq!(log.visible_offset(MAX_LOG_MESSAGES), 19);
    log.process_event_notification(AppEventNotification::LogMessage, 300, 10);
    assert_eq!(log.visible_offset(300), 19);
    assert_eq!(log.scrollbar(300, 10), (290, 9));
}

#[test]
fn log_buffer_keeps_the_newest_messages() {
    let mut buffer = VecDeque::new();
    for k in 0..MAX_LOG_MESSAGES + 5 {
        assert_eq!(
            push_log_message(&mut buffer, format!("{k}\n")),
            AppEventNotification::LogMessage
        );
        assert!(buffer.len() <= MAX_LOG_MESSAGES);
    }
    assert_eq!(buffer.front().map(String::as_str), Some("5\n"));
    assert_eq!(buffer.back().map(String::as_str), Some("504\n"));
}

#[test]
fn log_widget_shows_the_screenful_before_the_offset() {
    let lines: VecDeque<String> = (0..10).map(|k| format!("{k}\n")).collect();
    let widget = LogWidget::new(&lines).scroll(8);
    assert_eq!(widget.visible_lines(3), (5, 8));
    assert_eq!(widget.visible_text(3), "5\n6\n7\n");
    let widget = LogWidget::new(&lines).scroll(2);
    assert_eq!(widget.visible_lines(3), (0, 5));
    let widget = LogWidget::new(&lines).scroll(100);
    assert_eq!(widget.visible_lines(3), (97, 10));
    assert_eq!(widget.visible_text(3), "");
    assert_eq!(LogWidget::new(&lines).visible_text(4), "0\n1\n2\n3\n");
}

#[test]
fn log_writer_sends_whole_messages() {
    let mut buffer = LogBuffer::new();
    assert_eq!(buffer.flush(), Flushed::Nothing);
    assert_eq!(buffer.write(b"hello "), 6);
    buffer.write("wörld".as_bytes());
    assert_eq!(buffer.flush(), Flushed::Message("hello wörld".into()));
    assert_eq!(buffer.flush(), Flushed::Nothing);
    buffer.write(&[0xff, 0xfe]);
    assert_eq!(buffer.flush(), Flushed::InvalidData);
    assert_eq!(buffer.flush(), Flushed::Nothing);
}

#[test]
fn main_panel_keys_move_the_selection() {
    let mut main = Main::new();
    assert_eq!(main.series_list_state, ViewState::RootSeries { selected: 0 });
    assert_eq!(main.process_input(MainKey::Next), (EventResult::Continue(None), true));
    assert_eq!(main.series_list_state, ViewState::RootSeries { selected: 1 });
    main.process_input(MainKey::SeriesFormats);
    assert_eq!(main.series_list_state, ViewState::SeriesFormats { root: 1, selected: 0 });
    main.process_input(MainKey::Previous);
    assert_eq!(main.series_list_state, ViewState::SeriesFormats { root: 1, selected: -1 });
    main.process_input(MainKey::RootSeries);
    assert_eq!(main.series_list_state, ViewState::RootSeries { selected: 1 });
    assert_eq!(
        main.process_input(MainKey::OpenLog),
        (EventResult::Continue(Some(PanelEvent::PushLogPanel)), false)
    );
    assert_eq!(main.process_input(MainKey::Other), (EventResult::Continue(None), false));
    assert_eq!(main.process_input(MainKey::Escape), (EventResult::Quit, false));
}
