use crytter::{Action, Color, Terminal};
use vte::{Params, Perform};

struct Collector {
    actions: Vec<Action>,
}

impl Perform for Collector {
    fn print(&mut self, c: char) {
        self.actions.push(Action::Print(c));
    }

    fn execute(&mut self, byte: u8) {
        self.actions.push(Action::Execute(byte));
    }

    fn csi_dispatch(&mut self, params: &Params, intermediates: &[u8], _ignore: bool, action: char) {
        let params: Vec<Vec<u16>> = params.iter().map(|p| p.to_vec()).collect();
        self.actions.push(Action::Csi { params, intermediates: intermediates.to_vec(), action });
    }

    fn esc_dispatch(&mut self, intermediates: &[u8], _ignore: bool, byte: u8) {
        self.actions.push(Action::Esc { intermediates: intermediates.to_vec(), action: byte });
    }

    fn osc_dispatch(&mut self, params: &[&[u8]], _bell_terminated: bool) {
        let params: Vec<Vec<u8>> = params.iter().map(|p| p.to_vec()).collect();
        self.actions.push(Action::Osc(params));
    }

    fn hook(&mut self, params: &Params, intermediates: &[u8], _ignore: bool, action: char) {
        let params: Vec<Vec<u16>> = params.iter().map(|p| p.to_vec()).collect();
        self.actions.push(Action::Dcs {
            params,
            intermediates: intermediates.to_vec(),
            action: action as u8,
        });
    }
}

fn parse(input: &[u8]) -> Vec<Action> {
    let mut parser = vte::Parser::new();
    let mut collector = Collector { actions: Vec::new() };
    parser.advance(&mut collector, input);
    collector.actions
}

fn feed(term: &mut Terminal, input: &[u8]) {
    let actions = parse(input);
    term.process(&actions);
}

fn parse_and_process(term: &mut Terminal, input: &[u8]) {
    feed(term, input);
}

#[test]
fn print_characters() {
    let mut term = Terminal::new(80, 24);
    parse_and_process(&mut term, b"ABC");
    assert_eq!(term.grid().cell(0, 0).c, 'A');
    assert_eq!(term.grid().cell(0, 1).c, 'B');
    assert_eq!(term.grid().cell(0, 2).c, 'C');
    assert_eq!(term.cursor().col, 3);
}

#[test]
fn cursor_movement() {
    let mut term = Terminal::new(80, 24);
    parse_and_process(&mut term, b"\x1b[5;10H");
    assert_eq!(term.cursor().row, 4);
    assert_eq!(term.cursor().col, 9);
}

#[test]
fn erase_display_below() {
    let mut term = Terminal::new(80, 24);
    parse_and_process(&mut term, b"ABCDEF");
    parse_and_process(&mut term, b"\x1b[1;4H");
    parse_and_process(&mut term, b"\x1b[0J");
    assert_eq!(term.grid().cell(0, 0).c, 'A');
    assert_eq!(term.grid().cell(0, 1).c, 'B');
    assert_eq!(term.grid().cell(0, 2).c, 'C');
    assert_eq!(term.grid().cell(0, 3).c, ' ');
}

#[test]
fn sgr_colors() {
    let mut term = Terminal::new(80, 24);
    parse_and_process(&mut term, b"\x1b[1;31mX");
    let cell = term.grid().cell(0, 0);
    assert_eq!(cell.c, 'X');
    assert!(cell.attr.bold);
    assert_eq!(cell.attr.fg, Color::Indexed(1));
}

#[test]
fn linefeed_scrolls() {
    let mut term = Terminal::new(80, 3);
    parse_and_process(&mut term, b"line1\r\nline2\r\nline3\r\nline4");
    assert_eq!(term.grid().scrollback_len(), 1);
    assert_eq!(term.grid().cell(0, 0).c, 'l');
    assert_eq!(term.grid().cell(2, 0).c, 'l');
}

#[test]
fn osc_sets_title() {
    let mut term = Terminal::new(80, 24);
    parse_and_process(&mut term, b"\x1b]0;hello world\x07");
    assert_eq!(term.title(), "hello world");
}

#[test]
fn alt_screen_switch() {
    let mut term = Terminal::new(80, 24);
    parse_and_process(&mut term, b"main");
    parse_and_process(&mut term, b"\x1b[?1049h");
    assert!(term.modes().alt_screen);
    assert_eq!(term.grid().cell(0, 0).c, ' ');
    parse_and_process(&mut term, b"\x1b[?1049l");
    assert!(!term.modes().alt_screen);
    assert_eq!(term.grid().cell(0, 0).c, 'm');
}

#[test]
fn autowrap() {
    let mut term = Terminal::new(5, 3);
    parse_and_process(&mut term, b"12345X");
    assert_eq!(term.grid().cell(0, 4).c, '5');
    assert_eq!(term.grid().cell(1, 0).c, 'X');
}

// Adversarial: bounds, panics, resource exhaustion

#[test]
fn zero_size_terminal_does_not_panic() {
    let mut term = Terminal::new(0, 0);
    // Grid clamps to 1x1
    assert_eq!(term.cols(), 1);
    assert_eq!(term.rows(), 1);
    feed(&mut term, b"hello world");
    feed(&mut term, b"\x1b[999;999H");
    feed(&mut term, b"\x1b[2J");
    feed(&mut term, b"\x1b[?1049h");
    feed(&mut term, b"\x1b[?1049l");
}

#[test]
fn massive_cursor_movement_does_not_panic() {
    let mut term = Terminal::new(80, 24);
    feed(&mut term, b"\x1b[9999;9999H");
    assert_eq!(term.cursor().row, 23);
    assert_eq!(term.cursor().col, 79);

    feed(&mut term, b"\x1b[9999A"); // cursor up 9999
    assert_eq!(term.cursor().row, 0);

    feed(&mut term, b"\x1b[9999B"); // cursor down 9999
    assert_eq!(term.cursor().row, 23);

    feed(&mut term, b"\x1b[9999D"); // cursor back 9999
    assert_eq!(term.cursor().col, 0);

    feed(&mut term, b"\x1b[9999C"); // cursor forward 9999
    assert_eq!(term.cursor().col, 79);
}

#[test]
fn resize_to_zero_clamps() {
    let mut term = Terminal::new(80, 24);
    feed(&mut term, b"hello");
    term.resize(0, 0);
    assert_eq!(term.cols(), 1);
    assert_eq!(term.rows(), 1);
    assert_eq!(term.cursor().col, 0);
    assert_eq!(term.cursor().row, 0);
    feed(&mut term, b"X");
    assert_eq!(term.grid().cell(0, 0).c, 'X');
}

#[test]
fn rapid_scroll_does_not_oom() {
    let mut term = Terminal::new(80, 24);
    let input: Vec<u8> = (0..50_000).map(|i| if i % 80 == 79 { b'\n' } else { b'X' }).collect();
    feed(&mut term, &input);
    assert!(term.grid().scrollback_len() <= 10_000);
}

#[test]
fn csi_scroll_capped_iterations() {
    let mut term = Terminal::new(80, 24);
    feed(&mut term, b"\x1b[65535S");
    assert!(term.grid().scrollback_len() <= 10_000);
}

#[test]
fn inverted_scroll_region_rejected() {
    let mut term = Terminal::new(80, 24);
    feed(&mut term, b"\x1b[20;5r");
    assert_eq!(term.cursor().row, 0);
    assert_eq!(term.cursor().col, 0);
    feed(&mut term, b"line1\r\nline2\r\n");
}

#[test]
fn single_line_scroll_region_rejected() {
    let mut term = Terminal::new(80, 24);
    feed(&mut term, b"\x1b[5;5r");
    assert_eq!(term.cursor().row, 0);
}

#[test]
fn osc_title_length_capped() {
    let mut term = Terminal::new(80, 24);
    let mut input = b"\x1b]0;".to_vec();
    input.extend(vec![b'A'; 100_000]);
    input.push(0x07); // BEL terminator
    feed(&mut term, &input);
    assert!(term.title().len() <= 4096);
}

#[test]
fn osc_title_with_malicious_content() {
    let mut term = Terminal::new(80, 24);
    feed(&mut term, b"\x1b]0;<script>alert('xss')</script>\x07");
    assert_eq!(term.title(), "<script>alert('xss')</script>");
}

#[test]
fn osc_title_with_null_bytes() {
    let mut term = Terminal::new(80, 24);
    feed(&mut term, b"\x1b]0;hello\x00world\x07");
    let title = term.title();
    assert!(title.contains("hello"));
}

#[test]
fn binary_garbage_does_not_panic() {
    let mut term = Terminal::new(80, 24);
    let garbage: Vec<u8> = (0..10_000).map(|i| (i * 7 + 13) as u8).collect();
    feed(&mut term, &garbage);
    assert!(term.cursor().row < term.rows());
    assert!(term.cursor().col < term.cols());
}

#[test]
fn incomplete_escape_sequences() {
    let mut term = Terminal::new(80, 24);
    feed(&mut term, b"\x1b[");
    feed(&mut term, b"\x1b[38;5;");
    feed(&mut term, b"\x1b]0;title without terminator");
    feed(&mut term, b"OK");
}

// Real-world terminal sequences

#[test]
fn bash_prompt_simulation() {
    let mut term = Terminal::new(80, 24);
    feed(&mut term, b"\x1b]0;user@host:~\x07");
    feed(&mut term, b"\x1b[1;32muser@host\x1b[0m:\x1b[1;34m~\x1b[0m$ ");
    feed(&mut term, b"ls\r\n");
    feed(&mut term, b"file1.txt  file2.txt\r\n");

    assert_eq!(term.title(), "user@host:~");
    assert_eq!(term.grid().cell(0, 0).c, 'u');
    assert!(term.grid().cell(0, 0).attr.bold);
    assert_eq!(term.grid().cell(0, 0).attr.fg, Color::Indexed(2));
}

#[test]
fn vim_open_simulation() {
    let mut term = Terminal::new(80, 24);
    feed(&mut term, b"$ vim\r\n");
    feed(&mut term, b"\x1b[?1049h");
    feed(&mut term, b"\x1b[2J");
    feed(&mut term, b"\x1b[1;1H");
    feed(&mut term, b"~\r\n~\r\n~\r\n");

    assert!(term.modes().alt_screen);
    assert_eq!(term.grid().cell(0, 0).c, '~');
    assert_eq!(term.grid().cell(1, 0).c, '~');

    feed(&mut term, b"\x1b[?1049l");
    assert!(!term.modes().alt_screen);
    assert_eq!(term.grid().cell(0, 0).c, '$');
}

#[test]
fn htop_scroll_regions() {
    let mut term = Terminal::new(80, 24);
    feed(&mut term, b"\x1b[?1049h");
    feed(&mut term, b"\x1b[1;1H");
    feed(&mut term, b"CPU [##########] 50%\r\n");
    feed(&mut term, b"MEM [#####     ] 25%\r\n");
    feed(&mut term, b"\x1b[3;24r");
    feed(&mut term, b"\x1b[3;1H");
    feed(&mut term, b"  PID USER      PR  NI\r\n");

    assert_eq!(term.grid().cell(2, 2).c, 'P');
}

#[test]
fn color_256_and_rgb() {
    let mut term = Terminal::new(80, 24);
    feed(&mut term, b"\x1b[38;5;196mR");
    assert_eq!(term.grid().cell(0, 0).c, 'R');
    assert_eq!(term.grid().cell(0, 0).attr.fg, Color::Indexed(196));

    feed(&mut term, b"\x1b[38;2;255;128;0mO");
    assert_eq!(term.grid().cell(0, 1).c, 'O');
    assert_eq!(term.grid().cell(0, 1).attr.fg, Color::Rgb(255, 128, 0));

    feed(&mut term, b"\x1b[48;2;0;0;255mB");
    assert_eq!(term.grid().cell(0, 2).c, 'B');
    assert_eq!(term.grid().cell(0, 2).attr.bg, Color::Rgb(0, 0, 255));
}

#[test]
fn sgr_reset_clears_all() {
    let mut term = Terminal::new(80, 24);
    feed(&mut term, b"\x1b[1;3;4;31;42mX");
    let cell = term.grid().cell(0, 0);
    assert!(cell.attr.bold);
    assert!(cell.attr.italic);
    assert!(cell.attr.underline);

    feed(&mut term, b"\x1b[0mY");
    let cell = term.grid().cell(0, 1);
    assert!(!cell.attr.bold);
    assert!(!cell.attr.italic);
    assert!(!cell.attr.underline);
    assert_eq!(cell.attr.fg, Color::Default);
    assert_eq!(cell.attr.bg, Color::Default);
}

#[test]
fn cursor_save_restore() {
    let mut term = Terminal::new(80, 24);
    feed(&mut term, b"\x1b[5;10H");
    feed(&mut term, b"\x1b7");
    feed(&mut term, b"\x1b[1;1H");
    feed(&mut term, b"X");
    feed(&mut term, b"\x1b8");
    assert_eq!(term.cursor().row, 4);
    assert_eq!(term.cursor().col, 9);
}

#[test]
fn erase_line_modes() {
    let mut term = Terminal::new(10, 3);
    feed(&mut term, b"ABCDEFGHIJ");
    feed(&mut term, b"\x1b[1;6H");

    feed(&mut term, b"\x1b[0K");
    assert_eq!(term.grid().cell(0, 4).c, 'E');
    assert_eq!(term.grid().cell(0, 5).c, ' ');

    feed(&mut term, b"\x1b[2;1H");
    feed(&mut term, b"ABCDEFGHIJ");
    feed(&mut term, b"\x1b[2;6H");
    feed(&mut term, b"\x1b[1K");
    assert_eq!(term.grid().cell(1, 4).c, ' ');
    assert_eq!(term.grid().cell(1, 5).c, ' ');
    assert_eq!(term.grid().cell(1, 6).c, 'G');
}

#[test]
fn insert_mode() {
    let mut term = Terminal::new(10, 1);
    feed(&mut term, b"ABCDE");
    feed(&mut term, b"\x1b[1;3H");
    feed(&mut term, b"\x1b[4h");
    feed(&mut term, b"XY");

    assert_eq!(term.grid().cell(0, 0).c, 'A');
    assert_eq!(term.grid().cell(0, 1).c, 'B');
    assert_eq!(term.grid().cell(0, 2).c, 'X');
    assert_eq!(term.grid().cell(0, 3).c, 'Y');
    assert_eq!(term.grid().cell(0, 4).c, 'C');
    assert_eq!(term.grid().cell(0, 5).c, 'D');
    assert_eq!(term.grid().cell(0, 6).c, 'E');

    feed(&mut term, b"\x1b[4l");
    assert!(!term.modes().insert);
}

#[test]
fn delete_lines_no_scrollback_leak() {
    let mut term = Terminal::new(80, 5);
    feed(&mut term, b"line0\r\nline1\r\nline2\r\nline3\r\nline4");
    feed(&mut term, b"\x1b[1;1H");
    feed(&mut term, b"\x1b[2M");

    assert_eq!(term.grid().scrollback_len(), 0);
    assert_eq!(term.grid().cell(0, 0).c, 'l');
}

#[test]
fn tab_stops() {
    let mut term = Terminal::new(80, 24);
    feed(&mut term, b"A\tB\tC");
    assert_eq!(term.grid().cell(0, 0).c, 'A');
    assert_eq!(term.grid().cell(0, 8).c, 'B');
    assert_eq!(term.grid().cell(0, 16).c, 'C');
}

#[test]
fn reverse_index_at_top() {
    let mut term = Terminal::new(80, 3);
    feed(&mut term, b"AAA\r\nBBB\r\nCCC");
    feed(&mut term, b"\x1b[1;1H");
    feed(&mut term, b"\x1bM");

    assert_eq!(term.grid().cell(0, 0).c, ' ');
    assert_eq!(term.grid().cell(1, 0).c, 'A');
    assert_eq!(term.grid().cell(2, 0).c, 'B');
}

#[test]
fn erase_display_plus_scrollback() {
    let mut term = Terminal::new(80, 3);
    feed(&mut term, b"a\r\nb\r\nc\r\nd\r\ne");
    assert!(term.grid().scrollback_len() > 0);
    feed(&mut term, b"\x1b[3J");
    assert_eq!(term.grid().scrollback_len(), 0);
    assert_eq!(term.grid().cell(0, 0).c, ' ');
}

#[test]
fn resize_during_content() {
    let mut term = Terminal::new(80, 24);
    feed(&mut term, b"\x1b[12;40H");
    feed(&mut term, b"HERE");

    term.resize(20, 5);
    assert!(term.cursor().row < 5);
    assert!(term.cursor().col < 20);

    term.resize(80, 24);
    feed(&mut term, b"still works");
}

#[test]
fn wrap_at_exact_boundary() {
    let mut term = Terminal::new(5, 3);
    feed(&mut term, b"ABCDE");
    assert_eq!(term.cursor().col, 4);
    feed(&mut term, b"F");
    assert_eq!(term.cursor().row, 1);
    assert_eq!(term.cursor().col, 1);
    assert_eq!(term.grid().cell(1, 0).c, 'F');
}

#[test]
fn no_wrap_when_autowrap_disabled() {
    let mut term = Terminal::new(5, 3);
    feed(&mut term, b"\x1b[?7l");
    feed(&mut term, b"ABCDEFGH");
    assert_eq!(term.cursor().row, 0);
    assert_eq!(term.cursor().col, 4);
    assert_eq!(term.grid().cell(0, 4).c, 'H');
    assert_eq!(term.grid().cell(1, 0).c, ' ');
}

#[test]
fn bracket_paste_mode() {
    let mut term = Terminal::new(80, 24);
    assert!(!term.modes().bracket_paste);
    feed(&mut term, b"\x1b[?2004h");
    assert!(term.modes().bracket_paste);
    feed(&mut term, b"\x1b[?2004l");
    assert!(!term.modes().bracket_paste);
}

#[test]
fn stress_rapid_resize() {
    let mut term = Terminal::new(80, 24);
    feed(&mut term, b"initial content");
    for i in 1..100 {
        term.resize(i % 200 + 1, i % 50 + 1);
        feed(&mut term, b"X");
    }
    assert!(term.cursor().row < term.rows());
    assert!(term.cursor().col < term.cols());
}

#[test]
fn cell_out_of_bounds_returns_default() {
    let term = Terminal::new(80, 24);
    let cell = term.grid().cell(999, 999);
    assert_eq!(cell.c, ' ');
}

// Device queries and other behaviour

fn responses(term: &mut Terminal) -> Vec<Vec<u8>> {
    term.drain_responses()
}

#[test]
fn device_attribute_replies() {
    let mut term = Terminal::new(80, 24);
    feed(&mut term, b"\x1b[c");
    feed(&mut term, b"\x1b[>c");
    feed(&mut term, b"\x1b[>q");
    let r = responses(&mut term);
    assert_eq!(r.len(), 3);
    assert_eq!(r[0], b"\x1b[?62;22c".to_vec());
    assert_eq!(r[1], b"\x1b[>1;0;0c".to_vec());
    assert_eq!(r[2], b"\x1bP>|crytter 0.1.0\x1b\\".to_vec());
    assert!(responses(&mut term).is_empty());
}

#[test]
fn status_and_cursor_reports() {
    let mut term = Terminal::new(80, 24);
    feed(&mut term, b"\x1b[5n\x1b[7;12H\x1b[6n\x1b[18t");
    let r = responses(&mut term);
    assert_eq!(r, vec![b"\x1b[0n".to_vec(), b"\x1b[7;12R".to_vec(), b"\x1b[8;24;80t".to_vec()]);
}

#[test]
fn mode_report_replies() {
    let mut term = Terminal::new(80, 24);
    feed(&mut term, b"\x1b[?2004$p\x1b[?2004h\x1b[?2004$p\x1b[?2026$p\x1b[?9999$p");
    let r = responses(&mut term);
    assert_eq!(
        r,
        vec![
            b"\x1b[?2004;2$y".to_vec(),
            b"\x1b[?2004;1$y".to_vec(),
            b"\x1b[?2026;4$y".to_vec(),
            b"\x1b[?9999;0$y".to_vec(),
        ]
    );
}

#[test]
fn title_decodes_invalid_utf8_lossily() {
    let mut term = Terminal::new(80, 24);
    feed(&mut term, b"\x1b]2;caf\xc3\xa9\x07");
    assert_eq!(term.title(), "caf\u{e9}");
    let actions = vec![Action::Osc(vec![b"0".to_vec(), vec![b'a', 0xff, b'b']])];
    term.process(&actions);
    assert_eq!(term.title(), "a\u{fffd}b");
}

#[test]
fn title_cap_is_exactly_max_bytes() {
    let mut term = Terminal::new(80, 24);
    let actions = vec![Action::Osc(vec![b"0".to_vec(), vec![b'B'; 5000]])];
    term.process(&actions);
    assert_eq!(term.title().len(), 4096);
}

#[test]
fn full_reset_restores_fresh_state() {
    let mut term = Terminal::new(20, 4);
    feed(&mut term, b"\x1b]0;t\x07\x1b[1;31mabc\x1b[?1049h\x1b[?7l\x1b[3;4H");
    feed(&mut term, b"\x1bc");
    assert_eq!(term.title(), "");
    assert!(!term.modes().alt_screen);
    assert!(term.modes().autowrap);
    assert_eq!(term.cursor().row, 0);
    assert_eq!(term.cursor().col, 0);
    assert_eq!(term.grid().cell(0, 0).c, ' ');
    assert_eq!(term.cols(), 20);
    assert_eq!(term.rows(), 4);
    feed(&mut term, b"x");
    term.reset();
    assert_eq!(term.grid().cell(0, 0).c, ' ');
}

#[test]
fn chunked_input_matches_whole_input() {
    let input: &[u8] = b"ab\x1b[2;3Hcd\r\nef\x1b[1;32mgh\x1b[?1049hxy\x1b[?1049lz";
    let mut whole = Terminal::new(10, 4);
    feed(&mut whole, input);
    let actions = parse(input);
    let mut split = Terminal::new(10, 4);
    let (a, b) = actions.split_at(5);
    split.process(a);
    split.process(b);
    for r in 0..4 {
        for c in 0..10 {
            assert_eq!(whole.grid().cell(r, c), split.grid().cell(r, c));
        }
    }
    assert_eq!(whole.cursor().row, split.cursor().row);
    assert_eq!(whole.cursor().col, split.cursor().col);
}

#[test]
fn alt_screen_round_trip_restores_cursor_and_screen() {
    let mut term = Terminal::new(10, 4);
    feed(&mut term, b"hello\x1b[3;7H\x1b[4m");
    feed(&mut term, b"\x1b[?1049h\x1b[2Jjunk\r\nmore\x1b[1;1H\x1b[0m");
    feed(&mut term, b"\x1b[?1049l");
    assert_eq!(term.cursor().row, 2);
    assert_eq!(term.cursor().col, 6);
    assert!(term.cursor().attr.underline);
    assert_eq!(term.grid().cell(0, 0).c, 'h');
    assert_eq!(term.grid().cell(0, 4).c, 'o');
    assert_eq!(term.grid().cell(1, 0).c, ' ');
}

#[test]
fn repeat_counts_are_capped() {
    let mut term = Terminal::new(80, 24);
    feed(&mut term, b"x\x1b[24;1H\x1b[65535L");
    assert_eq!(term.grid().cell(0, 0).c, 'x');
    feed(&mut term, b"\x1b[65535T");
    assert_eq!(term.grid().cell(0, 0).c, ' ');
    assert_eq!(term.grid().scrollback_len(), 0);
}

#[test]
fn cursor_style_and_visibility() {
    let mut term = Terminal::new(80, 24);
    feed(&mut term, b"\x1b[4 q");
    assert_eq!(term.cursor().shape, crytter::CursorShape::Underline);
    feed(&mut term, b"\x1b[6 q");
    assert_eq!(term.cursor().shape, crytter::CursorShape::Bar);
    feed(&mut term, b"\x1b[?25l");
    assert!(!term.cursor().visible);
    feed(&mut term, b"\x1b[?25h\x1b[?1h");
    assert!(term.cursor().visible);
    assert!(term.modes().app_cursor);
}

fn print_all(term: &mut Terminal, text: &str) {
    let actions: Vec<Action> = text.chars().map(Action::Print).collect();
    term.process(&actions);
}

#[test]
fn wide_character_takes_two_columns() {
    let mut t = Terminal::new(80, 24);
    print_all(&mut t, "中A");
    assert_eq!(t.grid().cell(0, 0).c, '中');
    assert_eq!(t.grid().cell(0, 0).width, 2);
    assert_eq!(t.grid().cell(0, 1).width, 0);
    assert_eq!(t.grid().cell(0, 2).c, 'A');
    assert_eq!(t.grid().cell(0, 2).width, 1);
    assert_eq!(t.cursor().col, 3);
}

#[test]
fn wide_character_in_last_column_wraps_first() {
    let mut t = Terminal::new(5, 3);
    print_all(&mut t, "abcd中");
    assert_eq!(t.grid().cell(0, 3).c, 'd');
    assert_eq!(t.grid().cell(0, 4).c, ' ');
    assert_eq!(t.grid().cell(1, 0).c, '中');
    assert_eq!(t.grid().cell(1, 1).width, 0);
    assert_eq!((t.cursor().row, t.cursor().col), (1, 2));
}

#[test]
fn wide_character_without_autowrap_steps_left() {
    let mut t = Terminal::new(5, 3);
    feed(&mut t, b"\x1b[?7l");
    print_all(&mut t, "abcd中");
    assert_eq!(t.grid().cell(0, 3).c, '中');
    assert_eq!(t.grid().cell(0, 3).width, 2);
    assert_eq!(t.grid().cell(0, 4).width, 0);
    assert_eq!((t.cursor().row, t.cursor().col), (0, 4));
}

#[test]
fn wide_character_filling_the_line_leaves_wrap_pending() {
    let mut t = Terminal::new(4, 3);
    print_all(&mut t, "ab中x");
    assert_eq!(t.grid().cell(0, 2).c, '中');
    assert_eq!(t.grid().cell(0, 3).width, 0);
    assert_eq!(t.grid().cell(1, 0).c, 'x');
    assert_eq!((t.cursor().row, t.cursor().col), (1, 1));
    // on a one-column grid a wide character takes the one column
    let mut narrow = Terminal::new(1, 2);
    print_all(&mut narrow, "中");
    assert_eq!(narrow.grid().cell(0, 0).width, 1);
}

#[test]
fn wide_character_in_insert_mode_shifts_two() {
    let mut t = Terminal::new(6, 1);
    print_all(&mut t, "abc");
    feed(&mut t, b"\x1b[1;2H\x1b[4h");
    print_all(&mut t, "中");
    assert_eq!(t.grid().cell(0, 0).c, 'a');
    assert_eq!(t.grid().cell(0, 1).c, '中');
    assert_eq!(t.grid().cell(0, 2).width, 0);
    assert_eq!(t.grid().cell(0, 3).c, 'b');
    assert_eq!(t.grid().cell(0, 4).c, 'c');
}

#[test]
fn long_title_is_cut_to_the_limit() {
    let mut term = Terminal::new(80, 24);
    let mut input = b"\x1b]0;".to_vec();
    input.extend(vec![b'A'; 100_000]);
    input.push(0x07);
    feed(&mut term, &input);
    assert_eq!(term.title(), "A".repeat(4096));
}

#[test]
fn invalid_title_bytes_stay_within_the_limit() {
    let mut term = Terminal::new(80, 24);
    let actions = vec![Action::Osc(vec![b"2".to_vec(), vec![0xff; 5000]])];
    term.process(&actions);
    // each invalid byte becomes U+FFFD (3 bytes); 1365 of them fit in 4096
    assert_eq!(term.title().chars().count(), 1365);
    assert_eq!(term.title().len(), 4095);
    assert!(term.title().chars().all(|c| c == '\u{fffd}'));
}

#[test]
fn processing_keeps_the_grid_size() {
    let mut term = Terminal::new(33, 7);
    let garbage: Vec<u8> = (0..20_000).map(|i| (i * 31 + 7) as u8).collect();
    feed(&mut term, &garbage);
    feed(&mut term, b"\x1b[?1049h\x1bc\x1b[?1049l\x1b[8;50;100t");
    assert_eq!(term.cols(), 33);
    assert_eq!(term.rows(), 7);
    assert!(term.grid().scrollback_len() <= 10_000);
}
